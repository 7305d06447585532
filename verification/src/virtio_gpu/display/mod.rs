pub mod scanout;
