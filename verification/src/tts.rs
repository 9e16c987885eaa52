pub mod pt;
