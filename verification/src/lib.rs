pub mod c8;
pub mod instr;
