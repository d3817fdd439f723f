//! The check of a grid size given as text.

use vstd::prelude::*;
use crate::decimal::{append_decimal, decimal_digits, parse_usize, parsed_usize};

verus! {

/// The smallest grid size that a run takes.
pub const MIN_GRID_SIZE: usize = 1;

/// The largest grid size that a run takes.
pub const MAX_GRID_SIZE: usize = 100;

/// What is said of a text that is no number.
pub open spec fn invalid_number_message(text: Seq<char>) -> Seq<char> {
    seq!['`'] + text + "` isn't a valid number"@
}

/// What is said of a number outside the sizes that a run takes.
pub open spec fn out_of_range_message(size: nat) -> Seq<char> {
    "Grid size must be between 1 and 100, but got "@ + decimal_digits(size)
}

/// The verdict on a grid size given as `text`: the size where `text` is a
/// number from `MIN_GRID_SIZE` to `MAX_GRID_SIZE`, and otherwise what is said
/// of it.
pub open spec fn grid_size_verdict(text: Seq<char>) -> Result<usize, Seq<char>> {
    match parsed_usize(text) {
        None => Err(invalid_number_message(text)),
        Some(size) => if MIN_GRID_SIZE <= size <= MAX_GRID_SIZE {
            Ok(size)
        } else {
            Err(out_of_range_message(size as nat))
        },
    }
}

/// Reads a grid size from `value` and accepts it where it lies between
/// `MIN_GRID_SIZE` and `MAX_GRID_SIZE`.
pub fn validate_grid_size(value: &str) -> (result: Result<usize, String>)
    ensures
        match result {
            Ok(size) => grid_size_verdict(value@) == Ok::<usize, Seq<char>>(size),
            Err(message) => grid_size_verdict(value@) == Err::<usize, Seq<char>>(message@),
        },
{
    match parse_usize(value) {
        None => {
            proof {
                reveal_strlit("`");
            }
            let mut message = String::from_str("`");
            message.append(value);
            message.append("` isn't a valid number");
            assert(message@ =~= invalid_number_message(value@));
            Err(message)
        },
        Some(grid_size) => {
            if MIN_GRID_SIZE <= grid_size && grid_size <= MAX_GRID_SIZE {
                Ok(grid_size)
            } else {
                let mut message = String::from_str("Grid size must be between 1 and 100, but got ");
                append_decimal(&mut message, grid_size as u64);
                Err(message)
            }
        },
    }
}

} // verus!
