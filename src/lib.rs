//! Static rewriter for RISC-V code in ELF images: finds AUIPC/JALR pairs whose
//! registers alias, replaces them by direct jumps of the same total width, and
//! optionally scrubs two acquire-ordered atomic instructions.

use vstd::prelude::*;

pub mod bytes;
pub mod decode;
pub mod encode;
pub mod rewrite;
pub mod scrub;
pub mod scan;
