pub mod clock;
