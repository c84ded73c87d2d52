//! The AT protocol: commands, responses and the values in them.

pub mod builder;
pub mod laws;
pub mod line;
pub mod line_laws;
pub mod message_laws;
pub mod parser;
pub mod parser_laws;
pub mod reading;
pub mod report_laws;
pub mod response;
pub mod scan_laws;
pub mod utils;

pub use self::builder::{
    encode_ucs2_hex, needs_ucs2, sanitize_at_param, sanitize_sms_body, sms_hex_body_if_needed,
};
pub use self::parser::{
    is_valid_data_apn, parse_cgpaddr, parse_cops_scan, parse_net_status, parse_qcainfo, parse_qeng,
    parse_qeng_neighbour, parse_qtemp_temperature, parse_signal_quality, parse_single_line,
    ParsedLine, ScannedNetwork,
};
pub use self::response::{
    CgcontrdpResponse, CgdcontEntry, CgpaddrEntry, CnumResponse, CopsResponse, CpinResponse,
    QcainfoEntry, QengNeighbourCell, QengServingCell, QmbncfgEntry, QspnResponse, QtempResponse,
    QuimslotResponse, TrafficStats,
};
pub use self::utils::{
    convert_dotted_ipv6_to_standard, decode_cmgl_body, decode_hex_ucs2, extract_value,
    format_bytes, is_valid_ipv4, is_valid_ipv6, normalize_at_command, set_default,
};
