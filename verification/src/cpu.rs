pub mod arm7tdmi;
pub mod arm;
pub mod thumb;
