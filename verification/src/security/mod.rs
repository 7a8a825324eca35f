pub mod file_link_guard;
