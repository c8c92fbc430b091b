//! What the availability checker answers after a component is added.
use vstd::prelude::*;
use crate::blocks::AvailableExecutedBlock;
use crate::primitives::Hash256;

verus! {

/// Whether the block is fully `Available` for import, or still needs blobs,
/// columns or the block itself to complete it.
#[derive(Debug)]
pub enum Availability {
    MissingComponents(Hash256),
    Available(Box<AvailableExecutedBlock>),
}

impl Availability {
    /// The variant's name with the block root in brackets.
    pub open spec fn spec_describe(&self) -> Seq<char> {
        match self {
            Availability::MissingComponents(root) => "MissingComponents("@ + root.spec_hex() + ")"@,
            Availability::Available(b) => "Available("@ + b.import_data.block_root.spec_hex()
                + ")"@,
        }
    }

    /// A one-line description: the variant's name with the block root in
    /// brackets.
    pub fn describe(&self) -> (s: String)
        ensures
            s@ == self.spec_describe(),
    {
        match self {
            Availability::MissingComponents(root) => {
                let mut s = String::from_str("MissingComponents(");
                root.push_hex(&mut s);
                s.append(")");
                s
            },
            Availability::Available(b) => {
                let mut s = String::from_str("Available(");
                b.import_data.block_root.push_hex(&mut s);
                s.append(")");
                s
            },
        }
    }
}

} // verus!
