use crate::project1::backend::crystal::CrystalSize;
use crate::text::parse_unsigned_spec;
use std::num::ParseIntError;
use vstd::prelude::*;

verus! {

/// `std::num::ParseIntError`, the error of reading a number from text.
#[verifier::external_type_specification]
#[verifier::external_body]
pub struct ExParseIntError(std::num::ParseIntError);

/// Settings that cannot start a simulation.
#[derive(Debug)]
pub enum SimulationError {
    BadProbabilities,
    BadSeed(ParseIntError),
}

/// `str::parse::<u64>`. Its documentation (`u64::from_str_radix`) accepts an optional `+`
/// followed by at least one decimal digit and nothing else, with a value that fits in `u64`;
/// the contract states that, and says nothing of the error value.
#[verifier::external_body]
fn parse_u64(s: &str) -> (r: Result<u64, ParseIntError>)
    ensures
        r is Ok <==> parse_unsigned_spec(s@, u64::MAX as nat) is Some,
        r matches Ok(v) ==> parse_unsigned_spec(s@, u64::MAX as nat) == Some(v as nat),
{
    s.parse::<u64>()
}

/// The seed of a simulation: none when seeding is off; otherwise the text read as a `u64`,
/// which must read in full, with no white space around it.
pub fn seed_setting(is_seed_enabled: bool, seed: &str) -> (r: Result<Option<u64>, SimulationError>)
    ensures
        !is_seed_enabled ==> r matches Ok(None),
        is_seed_enabled ==> (r is Ok <==> parse_unsigned_spec(seed@, u64::MAX as nat) is Some),
        is_seed_enabled ==> (r matches Ok(v) ==> v matches Some(n) && parse_unsigned_spec(
            seed@,
            u64::MAX as nat,
        ) == Some(n as nat)),
        r matches Err(e) ==> e is BadSeed,
{
    if is_seed_enabled {
        match parse_u64(seed) {
            Ok(n) => Ok(Some(n)),
            Err(e) => Err(SimulationError::BadSeed(e)),
        }
    } else {
        Ok(None)
    }
}

/// How long a simulation runs, in seconds: `minutes` whole minutes and `seconds` seconds.
pub fn total_seconds(minutes: usize, seconds: usize) -> (r: usize)
    requires
        minutes * 60 + seconds <= usize::MAX,
    ensures
        r == minutes * 60 + seconds,
{
    minutes * 60 + seconds
}

/// The crystal within a border `border_width` by `border_height`: the border lines themselves
/// are cells too, so there is one cell more each way.
pub fn crystal_size_setting(border_width: usize, border_height: usize) -> (r: CrystalSize)
    requires
        border_width < usize::MAX,
        border_height < usize::MAX,
    ensures
        r.width == border_width + 1,
        r.height == border_height + 1,
{
    CrystalSize { width: border_width + 1, height: border_height + 1 }
}

} // verus!
