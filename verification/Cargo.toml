[package]
name = "procmap"
version = "0.1.0"
edition = "2021"
publish = false

[dependencies]
once_cell = "1"
paw = "1.0"
structopt = { version = "0.3", features = ["paw"] }
tabwriter = "1"
winapi = { version = "0.3", features = ["errhandlingapi", "handleapi", "memoryapi", "minwindef", "processthreadsapi", "psapi", "sysinfoapi", "tlhelp32", "winbase", "winnt"] }
