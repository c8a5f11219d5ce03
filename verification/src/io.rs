//! I/O register definitions and helpers.
pub mod dispcnt;
pub mod irq;
pub mod keys;
pub mod dma_cnt;
