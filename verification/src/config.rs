//! The monitor's settings, as given on the command line.
use vstd::prelude::*;

verus! {

/// All settings. Paths are held as text.
#[derive(Clone, Debug)]
pub struct Config {
    /// Network interface to capture on.
    pub interface: Option<String>,
    /// Offline pcap file to read instead of a live interface.
    pub pcap_file: Option<String>,
    /// Custom BPF filter for capture.
    pub pcap_filter: Option<String>,
    /// Path to the SQLite database.
    pub db_path: Option<String>,
    /// Whether the globe column is shown.
    pub show_globe: bool,
    /// Whether the connection list column is shown.
    pub show_list: bool,
    /// Whether the detail column is shown.
    pub show_detail: bool,
    /// Whether remote hosts are scanned with Nmap.
    pub enable_nmap: bool,
    /// Ports to pass to Nmap.
    pub nmap_ports: String,
    /// MaxMind database path for geolocation.
    pub mmdb_path: Option<String>,
    /// Logging level.
    pub log_level: String,
    /// Whether Authorization headers are stored as sent.
    pub log_auth_headers: bool,
}

impl Config {
    /// The settings parsed from the command line, completed: when no database
    /// path was given, `default_db_path` is used; everything else is kept.
    pub fn from_cli(parsed: Config, default_db_path: String) -> (cfg: Config)
        ensures
            cfg.db_path == (if parsed.db_path is Some { parsed.db_path } else { Some(default_db_path) }),
            cfg.interface == parsed.interface,
            cfg.pcap_file == parsed.pcap_file,
            cfg.pcap_filter == parsed.pcap_filter,
            cfg.show_globe == parsed.show_globe,
            cfg.show_list == parsed.show_list,
            cfg.show_detail == parsed.show_detail,
            cfg.enable_nmap == parsed.enable_nmap,
            cfg.nmap_ports == parsed.nmap_ports,
            cfg.mmdb_path == parsed.mmdb_path,
            cfg.log_level == parsed.log_level,
            cfg.log_auth_headers == parsed.log_auth_headers,
    {
        let mut cfg = parsed;
        if cfg.db_path.is_none() {
            cfg.db_path = Some(default_db_path);
        }
        cfg
    }
}

} // verus!
