pub mod morse;
