use crate::lab1::errors::TaskError;
use crate::text::{chars_of, decimal, decimal_spec, is_white_space, is_whitespace};
use vstd::prelude::*;

verus! {

/// Counts the words of generated text files, spread over folders of a base directory.
pub struct WordCount {
    base_directory: String,
    files_amount: usize,
    words_per_file: usize,
}

/// A word starts at `i`: the character there is not white space and the one before, if any, is.
pub open spec fn starts_word(s: Seq<char>, i: int) -> bool {
    !is_white_space(s[i]) && (i == 0 || is_white_space(s[i - 1]))
}

/// The number of words of `s`: its maximal runs of characters that are not white space, as
/// `str::split_whitespace` yields them.
pub open spec fn word_count(s: Seq<char>) -> nat
    decreases s.len(),
{
    if s.len() == 0 {
        0
    } else {
        word_count(s.drop_last()) + if starts_word(s, s.len() - 1) {
            1nat
        } else {
            0nat
        }
    }
}

/// `t` written `n` times.
pub open spec fn repeated(t: Seq<char>, n: nat) -> Seq<char>
    decreases n,
{
    if n == 0 {
        Seq::empty()
    } else {
        repeated(t, (n - 1) as nat) + t
    }
}

/// The word that the generated files repeat, with the space after it.
pub open spec fn file_word() -> Seq<char> {
    "benchmark "@
}

/// The name of the folder of the `i`-th file: a folder for each hundred files.
pub open spec fn folder_name_spec(i: nat) -> Seq<char> {
    "folder_"@ + decimal_spec(i / 100)
}

/// The name of the `i`-th file.
pub open spec fn file_name_spec(i: nat) -> Seq<char> {
    "file_"@ + decimal_spec(i) + ".txt"@
}

/// Words counted after a text that ends in white space add up.
proof fn lemma_word_count_concat(a: Seq<char>, b: Seq<char>)
    requires
        a.len() == 0 || is_white_space(a.last()),
    ensures
        word_count(a + b) == word_count(a) + word_count(b),
    decreases b.len(),
{
    if b.len() == 0 {
        assert(a + b =~= a);
    } else {
        lemma_word_count_concat(a, b.drop_last());
        assert((a + b).drop_last() =~= a + b.drop_last());
        let s = a + b;
        let i = s.len() - 1;
        assert(s[i] == b[b.len() - 1]);
        if b.len() > 1 {
            assert(s[i - 1] == b[b.len() - 2]);
        } else if a.len() > 0 {
            assert(s[i - 1] == a.last());
        }
    }
}

/// The generated text of `n` words has `n` words.
pub proof fn lemma_file_text_words(n: nat)
    ensures
        word_count(repeated(file_word(), n)) == n,
    decreases n,
{
    reveal_strlit("benchmark ");
    if n > 0 {
        lemma_file_text_words((n - 1) as nat);
        let prev = repeated(file_word(), (n - 1) as nat);
        if n > 1 {
            let before = repeated(file_word(), (n - 2) as nat);
            assert(prev == before + file_word());
            assert(prev.last() == file_word().last());
        }
        lemma_word_count_concat(prev, file_word());
        assert(word_count(file_word()) == 1) by {
            let w = file_word();
            assert(w.len() == 10);
            assert(w.take(1).drop_last() =~= w.take(0));
            assert(w.take(2).drop_last() =~= w.take(1));
            assert(w.take(3).drop_last() =~= w.take(2));
            assert(w.take(4).drop_last() =~= w.take(3));
            assert(w.take(5).drop_last() =~= w.take(4));
            assert(w.take(6).drop_last() =~= w.take(5));
            assert(w.take(7).drop_last() =~= w.take(6));
            assert(w.take(8).drop_last() =~= w.take(7));
            assert(w.take(9).drop_last() =~= w.take(8));
            assert(w.take(10).drop_last() =~= w.take(9));
            assert(w.take(10) =~= w);
            assert(w.take(0) =~= Seq::<char>::empty());
            assert(w.take(1)[0] == 'b');
            assert(!is_white_space(w.take(1)[0]));
            assert(starts_word(w.take(1), 0));
            assert(word_count(w.take(0)) == 0);
            assert(word_count(w.take(1)) == 1);
            assert(word_count(w.take(2)) == 1);
            assert(word_count(w.take(3)) == 1);
            assert(word_count(w.take(4)) == 1);
            assert(word_count(w.take(5)) == 1);
            assert(word_count(w.take(6)) == 1);
            assert(word_count(w.take(7)) == 1);
            assert(word_count(w.take(8)) == 1);
            assert(word_count(w.take(9)) == 1);
        }
    }
}

impl WordCount {
    /// A word count over `files_amount` files of `words_per_file` words under `base_directory`.
    pub fn with_directory(base_directory: String, files_amount: usize, words_per_file: usize) -> (r: Self)
        ensures
            r.directory() == base_directory@,
            r.files() == files_amount,
            r.words() == words_per_file,
    {
        Self { base_directory, files_amount, words_per_file }
    }

    /// The directory under which the files lie.
    pub closed spec fn directory(&self) -> Seq<char> {
        self.base_directory@
    }

    /// The number of files.
    pub closed spec fn files(&self) -> usize {
        self.files_amount
    }

    /// The number of words of each file.
    pub closed spec fn words(&self) -> usize {
        self.words_per_file
    }

    /// The directory under which the files lie.
    pub fn base_directory(&self) -> (r: &String)
        ensures
            r@ == self.directory(),
    {
        &self.base_directory
    }

    /// The number of files.
    pub fn files_amount(&self) -> (r: usize)
        ensures
            r == self.files(),
    {
        self.files_amount
    }

    /// The number of words of each file.
    pub fn words_per_file(&self) -> (r: usize)
        ensures
            r == self.words(),
    {
        self.words_per_file
    }

    /// The number of words of `contents`, as `split_whitespace` counts them.
    pub fn count_words(contents: &str) -> (r: usize)
        ensures
            r == word_count(contents@),
    {
        let chars = chars_of(contents);
        let mut count: usize = 0;
        let mut i: usize = 0;
        while i < chars.len()
            invariant
                i <= chars@.len(),
                count == word_count(chars@.take(i as int)),
                count <= i,
            decreases chars@.len() - i,
        {
            assert(chars@.take(i + 1).drop_last() =~= chars@.take(i as int));
            let c = chars[i];
            if !is_whitespace(c) && (i == 0 || is_whitespace(chars[i - 1])) {
                count = count + 1;
            }
            i = i + 1;
        }
        assert(chars@.take(chars@.len() as int) =~= chars@);
        count
    }

    /// The text of each file: the word `benchmark` and a space, `words_per_file` times.
    pub fn file_text(&self) -> (r: String)
        ensures
            r@ == repeated(file_word(), self.words() as nat),
    {
        let mut text = String::new();
        let mut i: usize = 0;
        while i < self.words_per_file
            invariant
                i <= self.words(),
                text@ == repeated(file_word(), i as nat),
            decreases self.words() - i,
        {
            text.append("benchmark ");
            i = i + 1;
        }
        text
    }

    /// The name of the folder of the `index`-th file: `folder_<index / 100>`.
    pub fn folder_name(index: usize) -> (r: String)
        ensures
            r@ == folder_name_spec(index as nat),
    {
        let mut name = String::from_str("folder_");
        let number = decimal((index / 100) as u64);
        name.append(number.as_str());
        name
    }

    /// The name of the `index`-th file: `file_<index>.txt`.
    pub fn file_name(index: usize) -> (r: String)
        ensures
            r@ == file_name_spec(index as nat),
    {
        let mut name = String::from_str("file_");
        let number = decimal(index as u64);
        name.append(number.as_str());
        name.append(".txt");
        name
    }

    /// The files `[start, end)` of the `process_index`-th of `total_processes` child processes:
    /// chunks of `ceil(files / total_processes)` files, the last one shorter; `None` for a
    /// process whose chunk is empty.
    pub fn process_chunk(files: usize, process_index: usize, total_processes: usize) -> (r: Option<
        (usize, usize),
    >)
        requires
            total_processes > 0,
            process_index * chunk_len(files as int, total_processes as int) + chunk_len(
                files as int,
                total_processes as int,
            ) <= usize::MAX,
        ensures
            r is Some <==> process_index * chunk_len(files as int, total_processes as int) < files,
            r matches Some(bounds) ==> bounds.0 == process_index * chunk_len(
                files as int,
                total_processes as int,
            ) && bounds.1 == min_int(files as int, bounds.0 + chunk_len(files as int, total_processes as int)),
    {
        let chunk_size = files / total_processes + if files % total_processes == 0 {
            0
        } else {
            1
        };
        assert(files > 0 ==> chunk_size > 0) by (nonlinear_arith)
            requires
                chunk_size == files / total_processes + if files % total_processes == 0 {
                    0int
                } else {
                    1int
                },
                total_processes > 0,
        ;
        let start = process_index * chunk_size;
        let end = if files < start + chunk_size {
            files
        } else {
            start + chunk_size
        };
        if start < end {
            Some((start, end))
        } else {
            None
        }
    }

    /// The files `[start, end)` of a child process, checked against the files there are.
    pub fn chunk_of<'a>(files: &'a [String], start: usize, end: usize) -> (r: Result<&'a [String], TaskError>)
        ensures
            r is Ok <==> start <= end <= files@.len(),
            r matches Ok(chunk) ==> chunk@ == files@.subrange(start as int, end as int),
            r matches Err(e) ==> e == TaskError::ChunkOutOfBounds(start, end),
    {
        if start <= end && end <= files.len() {
            Ok(vstd::slice::slice_subrange(files, start, end))
        } else {
            Err(TaskError::ChunkOutOfBounds(start, end))
        }
    }
}

/// `ceil(n / parts)`.
pub open spec fn chunk_len(n: int, parts: int) -> int {
    n / parts + if n % parts == 0 {
        0int
    } else {
        1int
    }
}

/// The smaller of two integers.
pub open spec fn min_int(a: int, b: int) -> int {
    if a < b {
        a
    } else {
        b
    }
}

/// Index `k` lies in the `j`-th chunk of `c` indices.
pub open spec fn in_chunk(k: int, j: int, c: int) -> bool {
    j * c <= k < j * c + c
}

/// The chunks of `process_chunk` share the files out: file `k` falls in the chunk of process
/// `k / ceil(files / processes)`, which is one of the processes, and in no other chunk.
pub proof fn lemma_process_chunks_partition(files: int, processes: int, k: int)
    requires
        processes > 0,
        0 <= k < files,
    ensures
        chunk_len(files, processes) > 0,
        0 <= k / chunk_len(files, processes) < processes,
        ({
            let c = chunk_len(files, processes);
            let i = k / c;
            i * c <= k < min_int(files, i * c + c)
        }),
        forall|j: int|
            0 <= j < processes && j != k / chunk_len(files, processes) ==> !#[trigger] in_chunk(
                k,
                j,
                chunk_len(files, processes),
            ),
{
    let c = chunk_len(files, processes);
    assert(c > 0 && c * processes >= files) by (nonlinear_arith)
        requires
            c == files / processes + if files % processes == 0 {
                0int
            } else {
                1int
            },
            processes > 0,
            files > 0,
    ;
    let i = k / c;
    assert(i * c <= k < i * c + c && 0 <= i) by (nonlinear_arith)
        requires
            i == k / c,
            c > 0,
            k >= 0,
    ;
    assert(i < processes) by (nonlinear_arith)
        requires
            i * c <= k,
            k < files,
            c * processes >= files,
            c > 0,
    ;
    assert forall|j: int|
        0 <= j < processes && j != i implies !#[trigger] in_chunk(k, j, c) by {
        if j < i {
            assert(j * c + c <= i * c) by (nonlinear_arith)
                requires
                    j < i,
                    c > 0,
            ;
        } else {
            assert(i * c + c <= j * c) by (nonlinear_arith)
                requires
                    i < j,
                    c > 0,
            ;
        }
    }
}

} // verus!
