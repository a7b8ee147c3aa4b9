//! Three-party replicated secret sharing (RSS3) over the ring of integers modulo 2^63,
//! over 64-bit words with XOR, over single bits, and over bit vectors.

pub mod arithmetic;
pub mod boolean;
pub mod single_boolean;
pub mod bitwise;

pub use arithmetic::RSS3Share_arithmetic;
pub use arithmetic::RSS3_arithmetic;
pub use boolean::RSS3Share_boolean;
pub use boolean::RSS3_boolean;
pub use single_boolean::RSS3Share_single_boolean;
pub use single_boolean::RSS3_single_boolean;
pub use bitwise::RSS3Share_boolean_bitwise;
pub use bitwise::RSS3S_boolean_bitwise;
