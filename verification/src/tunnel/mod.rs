pub mod tailscale;
