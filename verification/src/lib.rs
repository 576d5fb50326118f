//! Record type for one line of a TaxBit-format transaction export, with the
//! total order used to sort records deterministically, structural equality,
//! asset resolution, and the textual codec between the comma-separated line
//! representation and typed in-memory values.

pub mod codec;
pub mod dec;
pub mod kind;
pub mod record;

pub use codec::DecodeError;
pub use dec::Dec;
pub use kind::TaxBitRecType;
pub use record::{sort_records, TaxBitRec};
