pub mod ascii;
pub mod decode;
pub mod encode;
pub mod error;
pub mod laws;
pub mod text;
pub mod value;

pub use decode::{code_to_u8, is_code_word, reverse_magic};
pub use encode::format_magic;
pub use error::ReverseMagicError;
