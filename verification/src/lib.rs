pub mod audio;
pub mod cli;
pub mod commands;
pub mod control;
pub mod crc;
pub mod diag;
pub mod drive;
pub mod flux;
pub mod fmt;
pub mod format_job;
pub mod fs;
pub mod heads;
pub mod ibm;
pub mod ibm_readback;
pub mod mfm;
pub mod process;
pub mod protocol;
pub mod readback;
pub mod sectors;
pub mod session;
pub mod stats;
pub mod synth;
pub mod text;
pub mod track;
