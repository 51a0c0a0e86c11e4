use crate::lab1::errors::SystemError;
use crate::text::{
    decimal_spec, is_digit, is_white_space, lemma_decimal_digits, lemma_parse_decimal, parse_unsigned,
    parse_unsigned_spec, trim, trim_end_spec, trim_spec,
};
use vstd::prelude::*;

verus! {

/// What a child process printed, read as a number: the output without surrounding white space,
/// parsed as an unsigned number of at most `max`.
pub open spec fn output_value(output: Seq<char>, max: nat) -> Option<nat> {
    parse_unsigned_spec(trim_spec(output), max)
}

/// The number of outputs, from the first, that read as numbers before one does not.
pub open spec fn leading_parsed(outputs: Seq<Seq<char>>, max: nat) -> nat
    decreases outputs.len(),
{
    if outputs.len() == 0 {
        0
    } else {
        let before = leading_parsed(outputs.drop_last(), max);
        if before == outputs.len() - 1 && output_value(outputs.last(), max) is Some {
            outputs.len()
        } else {
            before
        }
    }
}

/// The sum of the values of the outputs that read as numbers.
pub open spec fn outputs_total(outputs: Seq<Seq<char>>, max: nat) -> nat
    decreases outputs.len(),
{
    if outputs.len() == 0 {
        0
    } else {
        outputs_total(outputs.drop_last(), max) + match output_value(outputs.last(), max) {
            Some(v) => v,
            None => 0,
        }
    }
}

/// The numbers that the outputs read as, zero for those that do not read.
pub open spec fn output_numbers(outputs: Seq<Seq<char>>, max: nat) -> Seq<u64> {
    outputs.map_values(
        |o: Seq<char>|
            match output_value(o, max) {
                Some(v) => v as u64,
                None => 0,
            },
    )
}

/// The outputs as strings of characters.
pub open spec fn output_views(outputs: Seq<String>) -> Seq<Seq<char>> {
    outputs.map_values(|s: String| s@)
}

/// Once an output does not read, the outputs that read from the first stay as many, whatever
/// follows.
proof fn lemma_leading_parsed_stops(outputs: Seq<Seq<char>>, max: nat, i: int, k: int)
    requires
        0 <= i < k <= outputs.len(),
        leading_parsed(outputs.take(i), max) == i,
        output_value(outputs[i], max) is None,
    ensures
        leading_parsed(outputs.take(k), max) == i,
    decreases k - i,
{
    assert(outputs.take(k).drop_last() =~= outputs.take(k - 1));
    if k > i + 1 {
        lemma_leading_parsed_stops(outputs, max, i, k - 1);
    }
}

/// Reads each output of the child processes as a number of at most `max`, in order, and stops
/// at the first that does not read, which the error carries.
pub fn parse_outputs(results: &[String], max: u64) -> (r: Result<Vec<u64>, SystemError>)
    ensures
        r is Ok <==> leading_parsed(output_views(results@), max as nat) == results@.len(),
        r matches Ok(values) ==> values@ == output_numbers(output_views(results@), max as nat),
        r matches Ok(values) ==> values@.len() == results@.len() && forall|i: int|
            0 <= i < results@.len() ==> output_value(#[trigger] results@[i]@, max as nat) == Some(
                values@[i] as nat,
            ),
        r matches Err(e) ==> (e matches SystemError::FailedParsingChildOutput(s) && s@
            == results@[leading_parsed(output_views(results@), max as nat) as int]@),
{
    let ghost outputs = output_views(results@);
    let mut values: Vec<u64> = Vec::new();
    let mut i: usize = 0;
    while i < results.len()
        invariant
            i <= results@.len() == outputs.len(),
            outputs == output_views(results@),
            values@.len() == i,
            leading_parsed(outputs.take(i as int), max as nat) == i,
            forall|j: int|
                0 <= j < i ==> output_value(#[trigger] results@[j]@, max as nat) == Some(
                    values@[j] as nat,
                ),
        decreases results@.len() - i,
    {
        assert(outputs.take(i + 1).drop_last() =~= outputs.take(i as int));
        assert(outputs[i as int] == results@[i as int]@);
        let trimmed = trim(results[i].as_str());
        match parse_unsigned(trimmed.as_str(), max) {
            Some(v) => {
                values.push(v);
            },
            None => {
                proof {
                    lemma_leading_parsed_stops(outputs, max as nat, i as int, outputs.len() as int);
                    assert(outputs.take(outputs.len() as int) =~= outputs);
                }
                return Err(SystemError::FailedParsingChildOutput(results[i].clone()));
            },
        }
        i = i + 1;
    }
    assert(outputs.take(results@.len() as int) =~= outputs);
    assert(values@ =~= output_numbers(outputs, max as nat));
    Ok(values)
}

/// The sum of the counts that the child processes printed, in order; the first output that
/// does not read as a count is the error. The counts read before it must add up within `usize`.
pub fn total_of_outputs(results: &[String]) -> (r: Result<usize, SystemError>)
    requires
        ({
            let outputs = output_views(results@);
            outputs_total(outputs.take(leading_parsed(outputs, usize::MAX as nat) as int), usize::MAX as nat)
                <= usize::MAX
        }),
    ensures
        r is Ok <==> leading_parsed(output_views(results@), usize::MAX as nat) == results@.len(),
        r matches Ok(total) ==> total == outputs_total(output_views(results@), usize::MAX as nat),
        r matches Err(e) ==> (e matches SystemError::FailedParsingChildOutput(s) && s@
            == results@[leading_parsed(output_views(results@), usize::MAX as nat) as int]@),
{
    let ghost outputs = output_views(results@);
    let ghost max = usize::MAX as nat;
    let ghost parsed = leading_parsed(outputs, max);
    proof {
        lemma_leading_parsed_bound(outputs, max);
    }
    let mut total: usize = 0;
    let mut i: usize = 0;
    while i < results.len()
        invariant
            i <= results@.len() == outputs.len(),
            outputs == output_views(results@),
            max == usize::MAX as nat,
            parsed == leading_parsed(outputs, max),
            parsed <= outputs.len(),
            outputs_total(outputs.take(parsed as int), max) <= usize::MAX,
            leading_parsed(outputs.take(i as int), max) == i,
            i <= parsed,
            total == outputs_total(outputs.take(i as int), max),
        decreases results@.len() - i,
    {
        assert(outputs.take(i + 1).drop_last() =~= outputs.take(i as int));
        assert(outputs[i as int] == results@[i as int]@);
        let trimmed = trim(results[i].as_str());
        match parse_unsigned(trimmed.as_str(), usize::MAX as u64) {
            Some(v) => {
                proof {
                    lemma_leading_parsed_prefix(outputs, max, i as int + 1);
                    lemma_outputs_total_monotonic(outputs.take(parsed as int), max, i as int + 1);
                    assert(outputs.take(parsed as int).take(i + 1) =~= outputs.take(i + 1));
                }
                total = total + v as usize;
            },
            None => {
                proof {
                    lemma_leading_parsed_stops(outputs, max, i as int, outputs.len() as int);
                    assert(outputs.take(outputs.len() as int) =~= outputs);
                }
                return Err(SystemError::FailedParsingChildOutput(results[i].clone()));
            },
        }
        i = i + 1;
    }
    assert(outputs.take(results@.len() as int) =~= outputs);
    Ok(total)
}

/// No more outputs read than there are.
proof fn lemma_leading_parsed_bound(outputs: Seq<Seq<char>>, max: nat)
    ensures
        leading_parsed(outputs, max) <= outputs.len(),
    decreases outputs.len(),
{
    if outputs.len() > 0 {
        lemma_leading_parsed_bound(outputs.drop_last(), max);
    }
}

/// When the first `k` outputs all read, at least `k` outputs read from the first.
proof fn lemma_leading_parsed_prefix(outputs: Seq<Seq<char>>, max: nat, k: int)
    requires
        0 <= k <= outputs.len(),
        leading_parsed(outputs.take(k), max) == k,
    ensures
        leading_parsed(outputs, max) >= k,
    decreases outputs.len() - k,
{
    if k < outputs.len() {
        assert(outputs.take(k + 1).drop_last() =~= outputs.take(k));
        if output_value(outputs[k], max) is Some {
            lemma_leading_parsed_prefix(outputs, max, k + 1);
        } else {
            lemma_leading_parsed_bound(outputs.take(k), max);
            lemma_leading_parsed_stops(outputs, max, k, outputs.len() as int);
            assert(outputs.take(outputs.len() as int) =~= outputs);
        }
    } else {
        assert(outputs.take(k) =~= outputs);
    }
}

/// The total of the first outputs is at most the total of all.
proof fn lemma_outputs_total_monotonic(outputs: Seq<Seq<char>>, max: nat, k: int)
    requires
        0 <= k <= outputs.len(),
    ensures
        outputs_total(outputs.take(k), max) <= outputs_total(outputs, max),
    decreases outputs.len() - k,
{
    if k < outputs.len() {
        lemma_outputs_total_monotonic(outputs, max, k + 1);
        assert(outputs.take(k + 1).drop_last() =~= outputs.take(k));
    } else {
        assert(outputs.take(k) =~= outputs);
    }
}

/// What a child process prints, a count and a line break, reads back as that count.
pub proof fn lemma_output_round_trip(n: nat, max: nat)
    requires
        n <= max,
    ensures
        output_value(decimal_spec(n) + "\n"@, max) == Some(n),
{
    reveal_strlit("\n");
    lemma_decimal_digits(n);
    let d = decimal_spec(n);
    let s = d + "\n"@;
    assert(s[0] == d[0]);
    assert(is_digit(d[0]));
    assert(!is_white_space(s[0]));
    assert(s.skip(0) =~= s);
    assert(s.drop_last() =~= d);
    assert(is_white_space(s.last()));
    assert(!is_white_space(d.last())) by {
        assert(is_digit(d[d.len() - 1]));
    }
    assert(trim_end_spec(d) == d);
    assert(trim_spec(s) == d);
    lemma_parse_decimal(n, max);
}

} // verus!
