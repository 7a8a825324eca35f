pub mod native;
