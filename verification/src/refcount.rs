//! The strengths of an address's reference count, which decide whether the address keeps the
//! actor alive for as long as it lives.

pub use crate::inbox::tx::{
    TxEither as Either, TxRefCounter as RefCounter, TxStrong as Strong, TxWeak as Weak,
};
