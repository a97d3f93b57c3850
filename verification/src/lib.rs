//! Tools for a UTXO ledger: the editable and the binary form of a transaction,
//! the form of an output script, the payload of a data-carrier output, the
//! digest that a signature commits to, and the signature itself.

pub mod api;
pub mod canonical;
pub mod decode;
pub mod editable;
pub mod encode;
pub mod error;
pub mod hexstr;
pub mod names;
pub mod primitives;
pub mod roundtrip;
pub mod script;
pub mod sighash;
pub mod signing;
pub mod tx;
pub mod wire;

pub use api::{Bitcoin, ScriptInfo, TxBuilder};
pub use editable::{JsTx, JsTxIn, JsTxOut};
pub use error::Error;
pub use script::{classify, extract_op_return, ScriptType, ScriptsBuilderExt};
pub use sighash::EcdsaSighashType;
pub use signing::{sign_sighash, SecretKey};
pub use tx::{OutPoint, Transaction, TxIn, TxOut};
