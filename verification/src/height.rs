//! Block heights and the revision numbers in them.

use vstd::prelude::*;

use crate::error::ClearError;
use crate::text::{
    decimal_digits, decimal_u64, law_decimal_read_back, law_decimal_without_dash,
    law_join_then_split, law_last_field,
    law_split_then_join, parse_decimal, split_at_dashes, split_dash, DASH,
};

verus! {

/// A block height: a revision of the chain, and the height within it.
#[derive(Clone, Copy, Debug, PartialEq, Eq, Structural)]
pub struct Height {
    pub revision_number: u64,
    pub revision_height: u64,
}

/// The height made of a revision number and a revision height: there is none
/// at revision height zero.
pub open spec fn height_of(revision_number: u64, revision_height: u64) -> Option<Height> {
    if revision_height == 0 {
        None
    } else {
        Some(Height { revision_number, revision_height })
    }
}

/// Calls `Height::new` of the `ibc` crate, which refuses revision height zero
/// and otherwise keeps both numbers.
#[verifier::external_body]
fn height_from_parts(revision_number: u64, revision_height: u64) -> (height: Option<Height>)
    ensures
        height == height_of(revision_number, revision_height),
{
    ibc::Height::new(revision_number, revision_height).ok().map(
        |h| Height { revision_number: h.revision_number(), revision_height: h.revision_height() },
    )
}

impl Height {
    /// A height past zero.
    pub open spec fn valid(self) -> bool {
        self.revision_height > 0
    }

    pub fn new(revision_number: u64, revision_height: u64) -> (height: Option<Height>)
        ensures
            height == height_of(revision_number, revision_height),
    {
        height_from_parts(revision_number, revision_height)
    }
}

/// The revision number at the end of a chain identifier: its last field.
pub open spec fn revision_number_of(chain_id: Seq<char>) -> Option<u64> {
    decimal_u64(split_dash(chain_id).last())
}

/// Reads the revision number at the end of a chain identifier.
pub fn revision_number(chain_id: &str) -> (number: Option<u64>)
    ensures
        number == revision_number_of(chain_id@),
{
    let fields = split_at_dashes(chain_id);
    proof {
        law_split_then_join(chain_id@);
        let last = fields@.len() - 1;
        assert(fields.deep_view()[last] =~= fields@[last]@);
    }
    parse_decimal(&fields[fields.len() - 1])
}

/// The identifier of a chain that ends in a dash and a number has that revision
/// number, whatever stands before.
pub proof fn law_revision_number(name: Seq<char>, number: u64)
    ensures
        revision_number_of(name + seq![DASH] + decimal_digits(number as nat)) == Some(number),
{
    law_decimal_without_dash(number);
    law_last_field(name, decimal_digits(number as nat));
    law_decimal_read_back(number);
}

/// The revision number of a chain identifier is read from what stands behind its last
/// dash, or from all of it where it has none; what stands before makes no difference.
pub proof fn law_revision_number_exact(name: Seq<char>, field: Seq<char>)
    requires
        !field.contains(DASH),
    ensures
        revision_number_of(name + seq![DASH] + field) == decimal_u64(field),
        revision_number_of(field) == decimal_u64(field),
{
    law_last_field(name, field);
    law_join_then_split(seq![field]);
}

/// A signed block height taken as an unsigned one: the same 64 bits.
pub open spec fn unsigned_height(height: i64) -> u64 {
    if height >= 0 {
        height as u64
    } else {
        (height + 0x1_0000_0000_0000_0000) as u64
    }
}

/// The height of a transaction on the chain with the given identifier.
pub open spec fn event_height_of(chain_id: Seq<char>, tx_height: i64) -> Result<
    Height,
    ClearError,
> {
    match revision_number_of(chain_id) {
        None => Err(ClearError::RevisionNumber),
        Some(number) => match height_of(number, unsigned_height(tx_height)) {
            None => Err(ClearError::EventHeight),
            Some(height) => Ok(height),
        },
    }
}

/// The height of a transaction past block zero on a chain with a revision number
/// is that revision and the transaction's height.
pub proof fn law_event_height(name: Seq<char>, number: u64, tx_height: i64)
    requires
        tx_height > 0,
    ensures
        event_height_of(name + seq![DASH] + decimal_digits(number as nat), tx_height) == Ok::<
            _,
            ClearError,
        >(Height { revision_number: number, revision_height: tx_height as u64 }),
{
    law_revision_number(name, number);
}

/// The height of a transaction is made of the revision number that the chain's
/// identifier ends in and of the transaction's height, bit for bit. There is none if
/// the identifier ends in no number, and none for height zero.
pub proof fn law_event_height_exact(chain_id: Seq<char>, tx_height: i64)
    ensures
        match event_height_of(chain_id, tx_height) {
            Ok(height) => {
                &&& revision_number_of(chain_id) == Some(height.revision_number)
                &&& tx_height != 0
                &&& (height.revision_height - tx_height) % 0x1_0000_0000_0000_0000 == 0
                &&& height.valid()
            },
            Err(e) => {
                &&& revision_number_of(chain_id) is None ==> e == ClearError::RevisionNumber
                &&& revision_number_of(chain_id) is Some ==> e == ClearError::EventHeight
                    && tx_height == 0
            },
        },
{
}

/// Builds the height at which a transaction was included.
pub fn event_height(chain_id: &str, tx_height: i64) -> (height: Result<Height, ClearError>)
    ensures
        height == event_height_of(chain_id@, tx_height),
{
    match revision_number(chain_id) {
        None => Err(ClearError::RevisionNumber),
        Some(number) => {
            assert(tx_height < 0 ==> (tx_height as u64) == tx_height + 0x1_0000_0000_0000_0000)
                by (bit_vector);
            match Height::new(number, tx_height as u64) {
                None => Err(ClearError::EventHeight),
                Some(height) => Ok(height),
            }
        },
    }
}

} // verus!
