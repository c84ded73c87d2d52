//! Readers of AT responses.

use quectel_webui::actor::telemetry::TelemetryData;
use quectel_webui::at::parser::{
    parse_cgpaddr, parse_cops_scan, parse_qcainfo, parse_qeng, parse_qeng_neighbour,
    parse_qtemp_temperature, parse_single_line, ParsedLine,
};

#[test]
fn test_parse_cpin() {
    let result = parse_single_line("+CPIN: READY");
    assert!(matches!(result, Some(ParsedLine::Cpin(ref r)) if r.status == "READY"));
}

#[test]
fn test_parse_quimslot() {
    let result = parse_single_line("+QUIMSLOT: 1");
    assert!(matches!(result, Some(ParsedLine::Quimslot(ref r)) if r.slot == 1));
}

#[test]
fn test_parse_qspn() {
    let result = parse_single_line("+QSPN: \"CHN-UNICOM\",\"CHN-UNICOM\",\"CHN-UNICOM\",2");
    assert!(matches!(result, Some(ParsedLine::Qspn(ref r)) if r.fnn == "CHN-UNICOM"));
}

#[test]
fn test_parse_cops() {
    let result = parse_single_line(r#"+COPS: 0,0,"CHN-UNICOM",13"#);
    assert!(
        matches!(result, Some(ParsedLine::Cops(ref r)) if r.oper.as_deref() == Some("CHN-UNICOM"))
    );
}

#[test]
fn test_parse_gdcont() {
    let result = parse_single_line("+CGDCONT: 1,\"IP\",\"3gnet\",\"\",0,0");
    assert!(
        matches!(result, Some(ParsedLine::Cgdcont(ref r)) if r.cid == 1 && r.apn == "3gnet")
    );
}

#[test]
fn test_parse_qgdnrcnt() {
    let result = parse_single_line("+QGDNRCNT: 123456,789012");
    assert!(
        matches!(result, Some(ParsedLine::TrafficStats(ref r)) if r.tx_bytes == 123456 && r.rx_bytes == 789012)
    );
}

#[test]
fn test_parse_qgdat() {
    let result = parse_single_line("+QGDAT: \"123456\",\"789012\"");
    assert!(
        matches!(result, Some(ParsedLine::TrafficStats(ref r)) if r.tx_bytes == 123456 && r.rx_bytes == 789012)
    );
}

#[test]
fn test_parse_cgpaddr() {
    let result = parse_single_line("+CGPADDR: 1,\"10.202.165.254\",\"2409::1\"");
    assert!(
        matches!(result, Some(ParsedLine::Cgpaddr(ref r)) if r.cid == 1 && r.ipv4 == "10.202.165.254")
    );
}

#[test]
fn test_parse_qeng_servingcell() {
    let line = "+QENG: \"servingcell\",\"NOCONN\",\"NR5G-SA\",\"TDD\",460,00,39074C001,751,72002F,504990,41,12,-64,-11,22,1,-";
    let result = parse_single_line(line);
    assert!(
        matches!(result, Some(ParsedLine::QengServingCell(ref r)) if r.rat == "NR5G-SA" && r.mcc == "460")
    );
}

#[test]
fn test_parse_qcainfo_pcc() {
    let result = parse_single_line("+QCAINFO: \"PCC\",504990,12,\"NR5G BAND 41\",751");
    assert!(
        matches!(result, Some(ParsedLine::Qcainfo(ref r)) if r.component == "PCC" && r.earfcn == "504990")
    );
}

#[test]
fn test_parse_qcainfo_scc() {
    let result = parse_single_line("+QCAINFO: \"SCC\",156490,3,\"NR5G BAND 28\",1,250,0,-,-");
    assert!(matches!(result, Some(ParsedLine::Qcainfo(ref r)) if r.component == "SCC"));
}

#[test]
fn test_ok_error() {
    assert!(matches!(parse_single_line("OK"), Some(ParsedLine::Okay)));
    assert!(matches!(
        parse_single_line("ERROR"),
        Some(ParsedLine::Error)
    ));
    assert!(matches!(
        parse_single_line("+CME ERROR: 50"),
        Some(ParsedLine::Error)
    ));
}

#[test]
fn test_parse_qtemp_temperature_cpuss() {
    let resp = "+QTEMP:\"modem-lte-sub6-pa1\",\"40\"\r\n+QTEMP:\"cpuss-0-usr\",\"42\"\r\n+QTEMP:\"mdmss-0-usr\",\"42\"";
    assert_eq!(parse_qtemp_temperature(resp), Some("42 °C".to_string()));
}

#[test]
fn test_parse_qtemp_temperature_mdmss_first() {
    let resp = "+QTEMP:\"mdmss-0-usr\",\"41\"\r\n+QTEMP:\"cpuss-0-usr\",\"43\"";
    assert_eq!(parse_qtemp_temperature(resp), Some("41 °C".to_string()));
}

#[test]
fn test_parse_qtemp_temperature_no_match() {
    let resp = "+QTEMP:\"modem-lte-sub6-pa1\",\"40\"\r\n+QTEMP:\"modem-ambient-usr\",\"42\"";
    assert_eq!(parse_qtemp_temperature(resp), None);
}

#[test]
fn test_parse_qtemp_temperature_empty() {
    assert_eq!(parse_qtemp_temperature(""), None);
}

#[test]
fn test_parse_qtemp_temperature_invalid_value() {
    let resp = "+QTEMP:\"cpuss-0-usr\",\"--\"";
    assert_eq!(parse_qtemp_temperature(resp), None);
}

#[test]
fn test_parse_qmbncfg_list() {
    let result = parse_single_line("+QMBNCFG: \"List\",0,1,\"RM520NGLAAR01A02M4G_01.004\"");
    assert!(
        matches!(result, Some(ParsedLine::Qmbncfg(ref r))
            if r.index == 0 && r.state == 1 && r.name == "RM520NGLAAR01A02M4G_01.004")
    );
}

#[test]
fn test_parse_qmbncfg_ignores_non_list() {
    let result = parse_single_line("+QMBNCFG: \"AutoSel\",0");
    assert!(matches!(result, Some(ParsedLine::Other(_))));
}

#[test]
fn test_parse_qmbncfg_ignores_empty_name() {
    let result = parse_single_line("+QMBNCFG: \"List\",0,0,\"\"");
    assert!(result.is_none());
}

#[test]
fn test_parse_qmbncfg_malformed_numeric() {
    let result = parse_single_line("+QMBNCFG: \"List\",X,1,\"RM520NGLAAR01A02M4G_01.004\"");
    assert!(
        matches!(result, Some(ParsedLine::Qmbncfg(ref r))
            if r.index == 0 && r.state == 1 && r.name == "RM520NGLAAR01A02M4G_01.004")
    );
}

#[test]
fn test_parse_qmbncfg_list_format_b() {
    let result = parse_single_line("+QMBNCFG: \"List\",4,\"VoLTE_OPNMKT_CT\",1");
    assert!(
        matches!(result, Some(ParsedLine::Qmbncfg(ref r))
            if r.index == 4 && r.state == 1 && r.name == "VoLTE_OPNMKT_CT")
    );
}

#[test]
fn test_parse_qmbncfg_list_format_a_numeric_name() {
    let result = parse_single_line("+QMBNCFG: \"List\",0,1,\"12345\"");
    assert!(
        matches!(result, Some(ParsedLine::Qmbncfg(ref r))
            if r.index == 0 && r.state == 1 && r.name == "12345")
    );
}

#[test]
fn test_parse_qmbncfg_list_format_c_with_extra_fields() {
    let result = parse_single_line("+QMBNCFG: \"List\",0,1,1,\"VoLTE_OPNMKT_CT\",0x0A0113E0,202204211");
    assert!(
        matches!(result, Some(ParsedLine::Qmbncfg(ref r))
            if r.index == 0 && r.state == 1 && r.name == "VoLTE_OPNMKT_CT")
    );
}

#[test]
fn test_parse_qmbncfg_list_format_c_short() {
    let result = parse_single_line("+QMBNCFG: \"List\",3,0,0,\"CZO2_Commercial\"");
    assert!(
        matches!(result, Some(ParsedLine::Qmbncfg(ref r))
            if r.index == 3 && r.state == 0 && r.name == "CZO2_Commercial")
    );
}

#[test]
fn test_parse_qmbncfg_list_format_c_multiple_entries() {
    let lines = "+QMBNCFG: \"List\",1,0,0,\"Volte_OpenMkt-Commercial-CMCC\",0x0A012010,202212151\n\
                 +QMBNCFG: \"List\",2,0,0,\"VoLTE-CU\",0x0A011561,202204211";
    let mut names = Vec::new();
    for line in lines.lines() {
        if let Some(ParsedLine::Qmbncfg(e)) = parse_single_line(line) {
            names.push(e.name);
        }
    }
    assert_eq!(names, vec!["Volte_OpenMkt-Commercial-CMCC", "VoLTE-CU"]);
}

#[test]
fn test_parse_cgpaddr_real_data() {
    let raw =
        "+CGPADDR: 1,\"10.172.99.214\",\"36.9.137.112.11.104.29.156.24.190.51.35.28.252.89.150\"\n\
         +CGPADDR: 2,\"36.9.129.112.11.10.92.211.24.190.51.33.74.23.82.57\"\n\
         +CGPADDR: 3,\"0.0.0.0\",\"0.0.0.0.0.0.0.0.0.0.0.0.0.0.0.0\"\n\
         +CGPADDR: 4,\"0.0.0.0\",\"0.0.0.0.0.0.0.0.0.0.0.0.0.0.0.0\"\n\
         +CGPADDR: 5,\"0.0.0.0\",\"0.0.0.0.0.0.0.0.0.0.0.0.0.0.0.0\"";
    let mut telemetry = TelemetryData::default();
    parse_cgpaddr(raw, &mut telemetry);
    assert_eq!(telemetry.ipv4, Some("10.172.99.214".to_string()));
    assert_eq!(telemetry.ipv6, Some("2409:8970:b68:1d9c:18be:3323:1cfc:5996".to_string()));
}

#[test]
fn test_parse_cgpaddr_all_zero() {
    let raw = "+CGPADDR: 1,\"0.0.0.0\",\"0.0.0.0\"\n+CGPADDR: 2,\"0.0.0.0\"";
    let mut telemetry = TelemetryData::default();
    parse_cgpaddr(raw, &mut telemetry);
    assert!(telemetry.ipv4.is_none());
    assert!(telemetry.ipv6.is_none());
}

#[test]
fn test_parse_qeng_real_nr5g_sa() {
    let raw = "+QENG: \"servingcell\",\"NOCONN\",\"NR5G-SA\",\"TDD\",460,00,39074C001,751,72002F,504990,41,12,-65,-11,19,1,-";
    let mut telemetry = TelemetryData::default();
    parse_qeng(raw, &mut telemetry);

    assert_eq!(telemetry.network_mode, Some("NR5G-SA TDD".to_string()));
    assert_eq!(telemetry.mccmnc, Some("46000".to_string()));
    assert_eq!(telemetry.cell_id, Some("39074C001".to_string()));
    assert_eq!(telemetry.enb_id, Some("39074C".to_string()));
    assert_eq!(telemetry.tac, Some("72002F".to_string()));
    assert_eq!(telemetry.bands, Some("NR5G BAND 41".to_string()));
    assert_eq!(telemetry.bandwidth, Some("NR 100 MHz".to_string()));
    assert_eq!(telemetry.earfcn, Some("504990".to_string()));
    assert_eq!(telemetry.pci, Some("751".to_string()));

    assert_eq!(telemetry.signal_percentage, Some("78%".to_string()));
    assert_eq!(telemetry.ss_rsrp, Some("-65 / 78%".to_string()));
    assert_eq!(telemetry.ss_rsrq, Some("-11 / 52%".to_string()));
    assert_eq!(telemetry.sinr, Some("19 / 78%".to_string()));

    assert_eq!(telemetry.assessment, Some("Good".to_string()));
}

#[test]
fn test_parse_qeng_non_ascii_cell_id_no_panic() {
    let raw = "+QENG: \"servingcell\",\"NOCONN\",\"NR5G-SA\",\"TDD\",460,00,abéé,751,72002F,504990,41,12,-65,-11,19,1,-";
    let mut telemetry = TelemetryData::default();
    parse_qeng(raw, &mut telemetry);
    assert_eq!(telemetry.cell_id, Some("abéé".to_string()));
    assert_eq!(telemetry.enb_id, Some("abéé".to_string()));
}

#[test]
fn test_parse_qcainfo_real_pcc_scc() {
    let raw =
        "+QCAINFO: \"PCC\",504990,12,\"NR5G BAND 41\",751\n\
         +QCAINFO: \"SCC\",156490,3,\"NR5G BAND 28\",1,250,0,-,-";
    let mut telemetry = TelemetryData::default();
    parse_qcainfo(raw, &mut telemetry);

    assert_eq!(telemetry.bands, Some("NR5G BAND 41, NR5G BAND 28".to_string()));
    assert_eq!(telemetry.bandwidth, Some("NR 120 MHz (100+20)".to_string()));
    assert_eq!(telemetry.earfcn, Some("504990, 156490".to_string()));
    assert_eq!(telemetry.pci, Some("751, 250".to_string()));
}

#[test]
fn test_parse_qcainfo_single_carrier() {
    let raw = "+QCAINFO: \"PCC\",504990,12,\"NR5G BAND 41\",751";
    let mut telemetry = TelemetryData::default();
    parse_qcainfo(raw, &mut telemetry);

    assert_eq!(telemetry.bands, Some("NR5G BAND 41".to_string()));
    assert_eq!(telemetry.bandwidth, Some("NR 100 MHz".to_string()));
    assert_eq!(telemetry.earfcn, Some("504990".to_string()));
    assert_eq!(telemetry.pci, Some("751".to_string()));
}

#[test]
fn test_parse_qcainfo_empty() {
    let mut telemetry = TelemetryData::default();
    parse_qcainfo("", &mut telemetry);
    assert!(telemetry.bands.is_none());
    assert!(telemetry.bandwidth.is_none());
}

#[test]
fn test_parse_qtemp_temperature_real_full() {
    let resp =
        "+QTEMP:\"modem-lte-sub6-pa1\",\"40\"\n\
         +QTEMP:\"modem-sdr0-pa0\",\"0\"\n\
         +QTEMP:\"modem-sdr0-pa1\",\"0\"\n\
         +QTEMP:\"modem-sdr0-pa2\",\"0\"\n\
         +QTEMP:\"modem-sdr1-pa0\",\"0\"\n\
         +QTEMP:\"modem-sdr1-pa1\",\"0\"\n\
         +QTEMP:\"modem-sdr1-pa2\",\"0\"\n\
         +QTEMP:\"modem-mmw0\",\"0\"\n\
         +QTEMP:\"aoss-0-usr\",\"42\"\n\
         +QTEMP:\"cpuss-0-usr\",\"42\"\n\
         +QTEMP:\"mdmq6-0-usr\",\"42\"\n\
         +QTEMP:\"mdmss-0-usr\",\"42\"\n\
         +QTEMP:\"mdmss-1-usr\",\"42\"\n\
         +QTEMP:\"mdmss-2-usr\",\"42\"\n\
         +QTEMP:\"mdmss-3-usr\",\"41\"\n\
         +QTEMP:\"modem-lte-sub6-pa2\",\"40\"\n\
         +QTEMP:\"modem-ambient-usr\",\"41\"";
    assert_eq!(parse_qtemp_temperature(resp), Some("42 °C".to_string()));
}

#[test]
fn test_parse_qtemp_temperature_mdmss_before_cpuss() {
    let resp =
        "+QTEMP:\"mdmss-0-usr\",\"41\"\n\
         +QTEMP:\"cpuss-0-usr\",\"42\"";
    assert_eq!(parse_qtemp_temperature(resp), Some("41 °C".to_string()));
}

#[test]
fn test_end_to_end_real_device_polling_cycle() {
    let cgpaddr_raw =
        "+CGPADDR: 1,\"10.172.99.214\",\"36.9.137.112.11.104.29.156.24.190.51.35.28.252.89.150\"\n\
         +CGPADDR: 2,\"36.9.129.112.11.10.92.211.24.190.51.33.74.23.82.57\"\n\
         +CGPADDR: 3,\"0.0.0.0\",\"0.0.0.0.0.0.0.0.0.0.0.0.0.0.0.0\"\n\
         +CGPADDR: 4,\"0.0.0.0\",\"0.0.0.0.0.0.0.0.0.0.0.0.0.0.0.0\"\n\
         +CGPADDR: 5,\"0.0.0.0\",\"0.0.0.0.0.0.0.0.0.0.0.0.0.0.0.0\"";
    let qeng_raw = "+QENG: \"servingcell\",\"NOCONN\",\"NR5G-SA\",\"TDD\",460,00,39074C001,751,72002F,504990,41,12,-65,-11,19,1,-";
    let qcainfo_raw =
        "+QCAINFO: \"PCC\",504990,12,\"NR5G BAND 41\",751\n\
         +QCAINFO: \"SCC\",156490,3,\"NR5G BAND 28\",1,250,0,-,-";
    let qtemp_raw =
        "+QTEMP:\"modem-lte-sub6-pa1\",\"40\"\n\
         +QTEMP:\"modem-sdr0-pa0\",\"0\"\n\
         +QTEMP:\"modem-sdr0-pa1\",\"0\"\n\
         +QTEMP:\"modem-sdr0-pa2\",\"0\"\n\
         +QTEMP:\"modem-sdr1-pa0\",\"0\"\n\
         +QTEMP:\"modem-sdr1-pa1\",\"0\"\n\
         +QTEMP:\"modem-sdr1-pa2\",\"0\"\n\
         +QTEMP:\"modem-mmw0\",\"0\"\n\
         +QTEMP:\"aoss-0-usr\",\"42\"\n\
         +QTEMP:\"cpuss-0-usr\",\"42\"\n\
         +QTEMP:\"mdmq6-0-usr\",\"42\"\n\
         +QTEMP:\"mdmss-0-usr\",\"42\"\n\
         +QTEMP:\"mdmss-1-usr\",\"42\"\n\
         +QTEMP:\"mdmss-2-usr\",\"42\"\n\
         +QTEMP:\"mdmss-3-usr\",\"41\"\n\
         +QTEMP:\"modem-lte-sub6-pa2\",\"40\"\n\
         +QTEMP:\"modem-ambient-usr\",\"41\"";

    let mut telemetry = TelemetryData::default();

    parse_cgpaddr(cgpaddr_raw, &mut telemetry);
    assert_eq!(telemetry.ipv4, Some("10.172.99.214".to_string()));
    assert_eq!(telemetry.ipv6, Some("2409:8970:b68:1d9c:18be:3323:1cfc:5996".to_string()));

    parse_qeng(qeng_raw, &mut telemetry);
    assert_eq!(telemetry.network_mode, Some("NR5G-SA TDD".to_string()));
    assert_eq!(telemetry.mccmnc, Some("46000".to_string()));
    assert_eq!(telemetry.cell_id, Some("39074C001".to_string()));
    assert_eq!(telemetry.enb_id, Some("39074C".to_string()));
    assert_eq!(telemetry.tac, Some("72002F".to_string()));
    assert_eq!(telemetry.signal_percentage, Some("78%".to_string()));
    assert_eq!(telemetry.ss_rsrp, Some("-65 / 78%".to_string()));
    assert_eq!(telemetry.ss_rsrq, Some("-11 / 52%".to_string()));
    assert_eq!(telemetry.sinr, Some("19 / 78%".to_string()));
    assert_eq!(telemetry.assessment, Some("Good".to_string()));
    assert_eq!(telemetry.bands, Some("NR5G BAND 41".to_string()));
    assert_eq!(telemetry.bandwidth, Some("NR 100 MHz".to_string()));
    assert_eq!(telemetry.earfcn, Some("504990".to_string()));
    assert_eq!(telemetry.pci, Some("751".to_string()));

    parse_qcainfo(qcainfo_raw, &mut telemetry);
    assert_eq!(telemetry.bands, Some("NR5G BAND 41, NR5G BAND 28".to_string()));
    assert_eq!(telemetry.bandwidth, Some("NR 120 MHz (100+20)".to_string()));
    assert_eq!(telemetry.earfcn, Some("504990, 156490".to_string()));
    assert_eq!(telemetry.pci, Some("751, 250".to_string()));

    assert_eq!(parse_qtemp_temperature(qtemp_raw), Some("42 °C".to_string()));
    telemetry.temperature = parse_qtemp_temperature(qtemp_raw);
    assert_eq!(telemetry.temperature, Some("42 °C".to_string()));

    assert_eq!(telemetry.network_mode, Some("NR5G-SA TDD".to_string()));
    assert_eq!(telemetry.mccmnc, Some("46000".to_string()));
    assert_eq!(telemetry.cell_id, Some("39074C001".to_string()));
    assert_eq!(telemetry.signal_percentage, Some("78%".to_string()));
    assert_eq!(telemetry.assessment, Some("Good".to_string()));
}

#[test]
fn test_parse_qeng_carrier_aggregation_multiple_servingcell() {
    let raw =
        "+QENG: \"servingcell\",\"CONNECT\",\"NR5G-SA\",\"TDD\",460,00,39074C001,751,72002F,504990,41,12,-65,-11,19,1,-\n\
         +QENG: \"servingcell\",\"CONNECT\",\"NR5G-SA\",\"TDD\",460,00,39074C001,250,72002F,156490,28,3,-70,-12,15,1,-";
    let mut telemetry = TelemetryData::default();
    parse_qeng(raw, &mut telemetry);

    assert_eq!(telemetry.bands, Some("NR5G BAND 41, NR5G BAND 28".to_string()));
    assert_eq!(telemetry.bandwidth, Some("NR 120 MHz (100+20)".to_string()));
    assert_eq!(telemetry.earfcn, Some("504990, 156490".to_string()));
    assert_eq!(telemetry.pci, Some("751, 250".to_string()));
    assert_eq!(telemetry.signal_percentage, Some("78%".to_string()));
}

#[test]
fn test_parse_qeng_neighbour_lte_and_nr() {
    let raw =
        "+QENG: \"neighbourcell\",\"LTE\",460,01,123,6300,-95,-8,-9,27\n\
         +QENG: \"neighbourcell\",\"LTE\",460,01,124,6299,-102,-10,-11,25\n\
         +QENG: \"neighbourcell\",\"NR5G\",460,01,456,500000,-90,-6,-7,28\n\
         OK\r\n";
    let cells = parse_qeng_neighbour(raw);
    assert_eq!(cells.len(), 3);

    assert_eq!(cells[0].rat, "LTE");
    assert_eq!(cells[0].mcc, "460");
    assert_eq!(cells[0].mnc, "01");
    assert_eq!(cells[0].pci, "123");
    assert_eq!(cells[0].earfcn, "6300");
    assert_eq!(cells[0].rsrp, "-95");
    assert_eq!(cells[0].rsrq, "-8");
    assert_eq!(cells[0].sinr, "-9");
    assert_eq!(cells[0].srxlev, "27");

    assert_eq!(cells[2].rat, "NR5G");
    assert_eq!(cells[2].pci, "456");
    assert_eq!(cells[2].earfcn, "500000");
    assert_eq!(cells[2].rsrp, "-90");
}

#[test]
fn test_parse_qeng_neighbour_empty() {
    let cells = parse_qeng_neighbour("");
    assert!(cells.is_empty());
}

#[test]
fn test_parse_qeng_neighbour_no_match() {
    let raw = "+QENG: \"servingcell\",\"NOCONN\",\"NR5G-SA\",\"TDD\",460,00,39074C001,751,72002F,504990,41,12,-65,-11,19,1,-";
    let cells = parse_qeng_neighbour(raw);
    assert!(cells.is_empty());
}

#[test]
fn test_parse_qeng_lte_servingcell() {
    let raw = "+QENG: \"servingcell\",\"CONNECT\",\"LTE\",\"FDD\",460,00,39074C001,751,6300,3,20,20,DE10,-65,-11,-70,19";
    let mut telemetry = TelemetryData::default();
    parse_qeng(raw, &mut telemetry);

    assert_eq!(telemetry.network_mode, Some("LTE FDD".to_string()));
    assert_eq!(telemetry.bands, Some("LTE BAND 3".to_string()));
    assert_eq!(telemetry.bandwidth, Some("20 MHz".to_string()));
    assert_eq!(telemetry.earfcn, Some("6300".to_string()));
    assert_eq!(telemetry.pci, Some("751".to_string()));
    assert_eq!(telemetry.tac, Some("DE10".to_string()));
    assert_eq!(telemetry.ss_rsrp, Some("-65 / 78%".to_string()));
    assert_eq!(telemetry.ss_rsrq, Some("-11 / 52%".to_string()));
    assert_eq!(telemetry.sinr, Some("19 / 78%".to_string()));
    assert_eq!(telemetry.signal_percentage, Some("78%".to_string()));
}

#[test]
fn test_parse_qeng_lte_enb_id_is_20bit() {
    let raw = "+QENG: \"servingcell\",\"CONNECT\",\"LTE\",\"FDD\",460,01,5F1EA15,12,1650,3,20,20,DE10,-65,-11,-70,19";
    let mut telemetry = TelemetryData::default();
    parse_qeng(raw, &mut telemetry);

    assert_eq!(telemetry.cell_id, Some("5F1EA15".to_string()));
    assert_eq!(telemetry.enb_id, Some("5F1EA".to_string()));
}

#[test]
fn test_parse_qeng_nsa_en_dc_three_lines() {
    let raw = "+QENG: \"servingcell\",\"NOCONN\"\n\
               +QENG: \"LTE\",\"FDD\",460,01,5F1EA15,12,1650,3,20,20,DE10,-99,-12,-67,11,9\n\
               +QENG: \"NR5G-NSA\",460,01,747,-71,13,-11,627264,78,12,1";
    let mut telemetry = TelemetryData::default();
    parse_qeng(raw, &mut telemetry);

    assert_eq!(telemetry.network_mode, Some("NR5G-NSA (LTE 锚点)".to_string()));
    assert_eq!(telemetry.mccmnc, Some("46001".to_string()));
    assert_eq!(telemetry.cell_id, Some("5F1EA15".to_string()));
    assert_eq!(telemetry.enb_id, Some("5F1EA".to_string()));
    assert_eq!(telemetry.tac, Some("DE10".to_string()));

    assert_eq!(telemetry.signal_percentage, Some("42%".to_string()));
    assert_eq!(telemetry.ss_rsrp, Some("-99 / 42%".to_string()));
    assert_eq!(telemetry.ss_rsrq, Some("-12 / 47%".to_string()));
    assert_eq!(telemetry.sinr, Some("11 / 62%".to_string()));

    assert_eq!(telemetry.bands, Some("LTE BAND 3, NR5G BAND 78".to_string()));
    assert_eq!(telemetry.bandwidth, Some("120 MHz (20+100)".to_string()));
    assert_eq!(telemetry.earfcn, Some("1650, 627264".to_string()));
    assert_eq!(telemetry.pci, Some("12, 747".to_string()));
}

#[test]
fn test_parse_qeng_state_only_line_leaves_telemetry_untouched() {
    let raw = "+QENG: \"servingcell\",\"SEARCH\"";
    let mut telemetry = TelemetryData::default();
    parse_qeng(raw, &mut telemetry);

    assert!(telemetry.network_mode.is_none());
    assert!(telemetry.cell_id.is_none());
    assert!(telemetry.enb_id.is_none());
    assert!(telemetry.signal_percentage.is_none());
    assert!(telemetry.bands.is_none());
}

#[test]
fn test_parse_cops_scan_act_mapping() {
    let raw = "+COPS: (2,\"CHN-UNICOM\",\"UNICOM\",\"46001\",7),\
               (1,\"CHN-MOBILE\",\"CMCC\",\"46000\",7),\
               (1,\"CHN-UNICOM\",\"UNICOM\",\"46001\",11),\
               (3,\"CHN-MOBILE\",\"CMCC\",\"46000\",12),\
               (1,\"CMCC\",\"CMCC\",\"46000\",2),\
               (3,\"CMCC\",\"CMCC\",\"46000\",0)";
    let nets = parse_cops_scan(raw);
    assert_eq!(nets.len(), 6);
    assert_eq!(nets[0].technology, "LTE");
    assert_eq!(nets[1].technology, "LTE");
    assert_eq!(nets[2].technology, "NR5G");
    assert_eq!(nets[3].technology, "NR5G");
    assert_eq!(nets[4].technology, "WCDMA");
    assert_eq!(nets[5].technology, "GSM");
}

#[test]
fn test_parse_qcainfo_lte_band_label() {
    let raw = "+QCAINFO: \"PCC\",6300,100,\"3\",751";
    let mut telemetry = TelemetryData::default();
    parse_qcainfo(raw, &mut telemetry);

    assert_eq!(telemetry.bands, Some("LTE BAND 3".to_string()));
    assert_eq!(telemetry.bandwidth, Some("20 MHz".to_string()));
    assert_eq!(telemetry.earfcn, Some("6300".to_string()));
}

#[test]
fn test_parse_qcainfo_lte_prefixed_band_not_doubled() {
    let raw = "+QCAINFO: \"PCC\",6300,100,\"LTE BAND 3\",751";
    let mut telemetry = TelemetryData::default();
    parse_qcainfo(raw, &mut telemetry);

    assert_eq!(telemetry.bands, Some("LTE BAND 3".to_string()));
}
