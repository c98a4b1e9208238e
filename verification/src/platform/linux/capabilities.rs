//! The process's effective capabilities, as `/proc/self/status` lists them.

use vstd::arithmetic::power2::pow2;
use vstd::prelude::*;

use crate::numbers::{parse_number, parsed_number};
use crate::text::{chars_of, lines, lines_of, starts_with, text_of, texts, trim, trimmed};

verus! {

/// The capability that system-wide process events need.
pub const CAP_NET_ADMIN: u32 = 12;

/// Why the capabilities could not be told.
#[derive(Clone, Copy, Debug, PartialEq, Eq, Structural)]
pub enum CapabilityError {
    /// The status lists none.
    Missing,
    /// What it lists is no hexadecimal number.
    Invalid,
}

/// What a line says of the effective capabilities, where it is about them.
pub open spec fn listed_on(line: Seq<char>) -> Option<Seq<char>> {
    if "CapEff:\t"@.is_prefix_of(line) {
        Some(line.skip("CapEff:\t"@.len() as int))
    } else if "CapEff:"@.is_prefix_of(line) {
        Some(line.skip("CapEff:"@.len() as int))
    } else {
        None
    }
}

/// What the first line about the effective capabilities says.
pub open spec fn first_listed(all: Seq<Seq<char>>) -> Option<Seq<char>>
    decreases all.len(),
{
    if all.len() == 0 {
        None
    } else if listed_on(all[0]) is Some {
        listed_on(all[0])
    } else {
        first_listed(all.drop_first())
    }
}

/// The set of effective capabilities, as a number.
pub open spec fn effective_set(status: Seq<char>) -> Result<nat, CapabilityError> {
    match first_listed(lines_of(status)) {
        Some(raw) => match parsed_number(trimmed(raw), 16, u64::MAX as nat) {
            Some(n) => Ok(n),
            None => Err(CapabilityError::Invalid),
        },
        None => Err(CapabilityError::Missing),
    }
}

/// Whether a set of capabilities, as a number, holds the given one.
pub open spec fn holds(set: nat, cap: nat) -> bool {
    (set / pow2(cap)) % 2 == 1
}

fn rest_after(line: &str, from: usize) -> (r: String)
    requires
        from <= line@.len(),
    ensures
        r@ == line@.skip(from as int),
{
    let v = chars_of(line);
    let r = text_of(&v, from, v.len());
    assert(r@ =~= line@.skip(from as int));
    r
}

fn read_listed(line: &str) -> (r: Option<String>)
    ensures
        match r {
            Some(raw) => listed_on(line@) == Some(raw@),
            None => listed_on(line@) is None,
        },
{
    proof {
        reveal_strlit("CapEff:\t");
        reveal_strlit("CapEff:");
    }
    if starts_with(line, "CapEff:\t") {
        Some(rest_after(line, 8))
    } else if starts_with(line, "CapEff:") {
        Some(rest_after(line, 7))
    } else {
        None
    }
}

/// Whether the status lists the capability as effective.
pub fn has_effective_capability(status: &str, cap: u32) -> (r: Result<bool, CapabilityError>)
    requires
        cap < 64,
    ensures
        match r {
            Ok(held) => effective_set(status@) matches Ok(set) && held == holds(set, cap as nat),
            Err(e) => effective_set(status@) == Err::<nat, _>(e),
        },
{
    let all = lines(status);
    let mut i: usize = 0;
    assert(texts(all@).skip(0) =~= texts(all@));
    while i < all.len()
        invariant
            i <= all@.len(),
            cap < 64,
            texts(all@) == lines_of(status@),
            first_listed(lines_of(status@)) == first_listed(texts(all@).skip(i as int)),
        decreases all@.len() - i,
    {
        let ghost rest = texts(all@).skip(i as int);
        assert(rest[0] == all@[i as int]@);
        assert(rest.drop_first() =~= texts(all@).skip(i + 1));
        if let Some(raw) = read_listed(all[i].as_str()) {
            let number = trim(raw.as_str());
            return match parse_number(number.as_str(), 16, u64::MAX) {
                Some(effective) => {
                    proof {
                        vstd::bits::lemma_u64_shr_is_div(effective, cap as u64);
                    }
                    let shifted: u64 = effective >> (cap as u64);
                    assert(shifted & 1 == shifted % 2) by (bit_vector);
                    Ok(shifted & 1 == 1)
                },
                None => Err(CapabilityError::Invalid),
            };
        }
        i += 1;
    }
    assert(texts(all@).skip(i as int) =~= seq![]);
    Err(CapabilityError::Missing)
}

} // verus!
