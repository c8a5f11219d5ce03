pub mod bits;
pub mod io;
pub mod cpu;
pub mod ppu;
pub mod mem_map;
pub mod memory;
pub mod bus;
pub mod system;
