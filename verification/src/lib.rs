//! A verified RISC-V instruction decoder and interpreter core.

pub mod bits;
pub mod inst;
pub mod decode;
pub mod alu;
pub mod mnist;
pub mod bus;
pub mod hart;
pub mod vcontext;
pub mod vops;
pub mod vexec;
pub mod vinst;
pub mod vfp;
pub mod machine;
pub mod sim;
pub mod diff;
pub mod refsim;
pub mod laws;
