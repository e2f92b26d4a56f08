pub mod quire256;
