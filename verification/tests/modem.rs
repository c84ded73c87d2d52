//! The driver's scripts, run against modules made of canned replies.

use quectel_webui::actor::action::DiagnosticType;
use quectel_webui::backend::modem::RealBackend;
use quectel_webui::backend::process::{
    at_exec_failed, at_response_has_error, at_response_preview, judge_outcome, send_at_command_inner,
    send_at_command_inner_with_timeout, send_at_get_line, send_sms_command_inner, spawn_args,
    ProcessOutcome,
};
use quectel_webui::backend::query::{fetch_network_provider, query_device_bands};
use quectel_webui::backend::{AtCommand, MockBackend, Step};
use quectel_webui::device::{profile_rm520n, DeviceId};

type Replies = Vec<Result<String, String>>;

/// Runs a script; gives its result and the commands that it sent.
fn run<T>(
    script: impl Fn(&Replies) -> Step<T>,
    reply: impl Fn(&str) -> Result<String, String>,
) -> (T, Vec<AtCommand>) {
    let mut replies: Replies = Vec::new();
    let mut sent = Vec::new();
    loop {
        match script(&replies) {
            Step::Send(c) => {
                assert!(sent.len() < 40);
                replies.push(reply(&c.cmd));
                sent.push(c);
            }
            Step::Done(t) => return (t, sent),
        }
    }
}

fn names(sent: &[AtCommand]) -> Vec<&str> {
    sent.iter().map(|c| c.cmd.as_str()).collect()
}

fn ok(_: &str) -> Result<String, String> {
    Ok("\r\nOK\r\n".to_string())
}

fn fail(_: &str) -> Result<String, String> {
    Err("AT命令返回错误: ERROR".to_string())
}

fn backend() -> RealBackend {
    RealBackend { serial_path: "/dev/smd11".to_string(), profile: profile_rm520n() }
}

#[test]
fn the_model_decides_the_profile() {
    let (b, sent) = run(
        |r| RealBackend::new("/dev/smd11", true, r),
        |_| Ok("AT+CGMM\r\r\nrm502q-ae\r\n\r\nOK\r\n".to_string()),
    );
    assert_eq!(names(&sent), vec!["AT+CGMM"]);
    assert_eq!(b.profile.id, DeviceId::Rm502q);
    assert_eq!(b.serial_path, "/dev/smd11");
    let (b, _) = run(|r| RealBackend::new("/dev/smd11", true, r), fail);
    assert_eq!(b.profile.id, DeviceId::Generic);
    let (b, sent) = run(|r| RealBackend::new("/dev/none", false, r), ok);
    assert_eq!(b.profile.id, DeviceId::Generic);
    assert!(sent.is_empty());
}

#[test]
fn raw_commands_pass_through() {
    let b = backend();
    let (r, sent) = run(|r| b.exec_raw_at("AT+CSQ", r), ok);
    assert_eq!(r, "\r\nOK\r\n");
    assert_eq!(sent, vec![send_at_command_inner("AT+CSQ")]);
    assert_eq!(sent[0].timeout_secs, 10);
    let (r, _) = run(|r| b.exec_raw_at("AT+CSQ", r), fail);
    assert_eq!(r, "ERROR: AT命令返回错误: ERROR");
    assert!(at_exec_failed(&r));
}

#[test]
fn messages_are_listed() {
    let b = backend();
    let (r, sent) = run(|r| b.read_sms_list(r), ok);
    assert_eq!(names(&sent), vec!["AT+CMGF=1", "AT+CSCS=\"GSM\"", "AT+CMGL=\"ALL\""]);
    assert_eq!(r, "\r\nOK\r\n");
    let (r, sent) = run(|r| b.read_sms_list(r), fail);
    assert_eq!(r, "+CMGL: 0 messages\r\nOK\r\n");
    assert_eq!(sent.len(), 3);
}

#[test]
fn access_points_are_set() {
    let b = backend();
    let (r, sent) = run(|r| b.configure_apn("cm\"net", "me", "pa\\ss\r", 2, r), ok);
    assert_eq!(
        names(&sent),
        vec!["AT+CGDCONT=1,\"IPV4V6\",\"cmnet\"", "AT+CGAUTH=1,2,\"me\",\"pass\""]
    );
    assert_eq!(r, Ok("APN cmnet 设置已应用".to_string()));
    let (r, sent) = run(|r| b.configure_apn("cmnet", "\"\"", "x", 2, r), ok);
    assert_eq!(sent.len(), 1);
    assert!(r.is_ok());
    let (r, sent) = run(|r| b.configure_apn("cmnet", "me", "x", 2, r), fail);
    assert_eq!(sent.len(), 1);
    assert_eq!(r, Err("AT命令返回错误: ERROR".to_string()));
}

#[test]
fn network_modes() {
    let b = backend();
    for (mode, cmd) in [
        ("nr5g", "AT+QNWPREFCFG=\"mode_pref\",NR5G"),
        ("lte", "AT+QNWPREFCFG=\"mode_pref\",LTE"),
        ("nr5g_lte", "AT+QNWPREFCFG=\"mode_pref\",LTE:NR5G"),
        ("wcdma", "AT+QNWPREFCFG=\"mode_pref\",WCDMA"),
        ("auto", "AT+QNWPREFCFG=\"mode_pref\",AUTO"),
        ("disable_sa", "AT+QNWPREFCFG=\"nr5g_disable_mode\",1"),
        ("disable_nsa", "AT+QNWPREFCFG=\"nr5g_disable_mode\",2"),
        ("enable_all_5g", "AT+QNWPREFCFG=\"nr5g_disable_mode\",0"),
    ] {
        let (r, sent) = run(|r| b.set_network_mode_pref(mode, r), ok);
        assert_eq!(names(&sent), vec![cmd]);
        assert_eq!(r, Ok("\r\nOK\r\n".to_string()));
    }
    let (r, sent) = run(|r| b.set_network_mode_pref("gsm", r), ok);
    assert_eq!(r, Err("不支持的网络模式参数: gsm".to_string()));
    assert!(sent.is_empty());
}

#[test]
fn data_sessions() {
    let b = backend();
    let (r, sent) = run(|r| b.set_data_session(true, r), ok);
    assert_eq!(names(&sent), vec!["AT+CGACT=1,1"]);
    assert_eq!(r, Ok("拨号连接指令已下发".to_string()));
    let (r, sent) = run(|r| b.set_data_session(false, r), ok);
    assert_eq!(names(&sent), vec!["AT+CGACT=0,1"]);
    assert_eq!(r, Ok("拨号断开指令已下发".to_string()));
    assert!(run(|r| b.set_data_session(false, r), fail).0.is_err());
}

#[test]
fn scans_have_four_minutes() {
    let b = backend();
    let (r, sent) = run(
        |r| b.scan_available_networks(r),
        |_| Ok("+COPS: (2,\"CHINA MOBILE\",\"CMCC\",\"46000\",7)\r\nOK\r\n".to_string()),
    );
    assert_eq!(sent, vec![send_at_command_inner_with_timeout("AT+COPS=?", 240)]);
    assert_eq!(r.len(), 1);
    assert_eq!(r[0].status, "Current");
    assert!(run(|r| b.scan_available_networks(r), fail).0.is_empty());
}

#[test]
fn plain_messages_go_as_text() {
    let b = backend();
    let (r, sent) = run(|r| b.send_sms_msg("10\"086", "say \"hi\"", r), ok);
    assert!(r);
    assert_eq!(names(&sent), vec!["AT+CMGF=1", "AT+CMGS=\"10086\""]);
    assert_eq!(sent[1], send_sms_command_inner("AT+CMGS=\"10086\"", "say \"hi\"", None));
    assert_eq!(sent[1].timeout_secs, 30);
    assert_eq!(sent[1].sms_message.as_deref(), Some("say \"hi\""));
    let (r, sent) = run(|r| b.send_sms_msg("10086", "hi", r), fail);
    assert!(!r);
    assert_eq!(sent.len(), 1);
}

#[test]
fn other_messages_go_as_ucs2() {
    let b = backend();
    let (r, sent) = run(|r| b.send_sms_msg("10086", "你好", r), ok);
    assert!(r);
    assert_eq!(
        names(&sent),
        vec![
            "AT+CMGF=1",
            "AT+CSCS=\"GSM\"",
            "AT+CSMP=17,167,0,8",
            "AT+CMGS=\"10086\"",
            "AT+CSMP=17,167,0,0",
        ]
    );
    assert_eq!(sent[3].sms_message.as_deref(), Some("4F60597D"));
    for (text, body) in [("é", "00E9"), ("`", "0060")] {
        let (r, sent) = run(|r| b.send_sms_msg("10086", text, r), ok);
        assert!(r);
        assert_eq!(sent[3].sms_message.as_deref(), Some(body));
    }
    let (r, sent) = run(
        |r| b.send_sms_msg("10086", "你好", r),
        |c| if c.starts_with("AT+CMGS") { fail(c) } else { ok(c) },
    );
    assert!(!r);
    assert_eq!(sent.last().map(|c| c.cmd.as_str()), Some("AT+CSMP=17,167,0,0"));
    for (stop, n) in [("AT+CMGF", 1), ("AT+CSCS", 2), ("AT+CSMP", 3)] {
        let (r, sent) = run(
            |r| b.send_sms_msg("10086", "你好", r),
            |c| if c.starts_with(stop) { fail(c) } else { ok(c) },
        );
        assert!(!r);
        assert_eq!(sent.len(), n);
    }
}

#[test]
fn device_information() {
    let b = backend();
    let reply = |c: &str| -> Result<String, String> {
        let line = match c {
            "AT+CGMI" => "Quectel",
            "AT+CGMM" => "RM520N-CN",
            "AT+CGMR" => "RM520NCNAAR03A03M4G",
            "AT+CGSN" => "866355057849136",
            "AT+CPIN?" => "+CPIN: READY",
            "AT+CIMI" => "460001234567890",
            "AT+QCCID" => "+QCCID: 89860012345678901234",
            "AT+CNUM" => "+CNUM: ,\"+8613800000000\",145",
            "AT+CREG?" => "+CREG: 0,1",
            "AT+CSQ" => "+CSQ: 31,99",
            "AT+QTEMP" => "+QTEMP: \"cpuss-0-usr\",\"41\"",
            "AT+QCAINFO" => "+QCAINFO: \"PCC\",1,100,\"LTE BAND 3\",1",
            _ => "",
        };
        Ok(format!("{}\r\r\n{}\r\n\r\nOK\r\n", c, line))
    };
    let (d, sent) = run(|r| b.read_device_info(r), reply);
    assert_eq!(
        names(&sent),
        vec![
            "AT+CGMI", "AT+CGMM", "AT+CGMR", "AT+CGSN", "AT+CPIN?", "AT+CIMI", "AT+QCCID", "AT+CNUM",
            "AT+CREG?", "AT+CSQ", "AT+QTEMP", "AT+QENG=\"servingcell\"", "AT+QCAINFO",
        ]
    );
    assert_eq!(d.manufacturer, "Quectel");
    assert_eq!(d.model, "RM520N-CN");
    assert_eq!(d.module_type, "RM520N-CN");
    assert_eq!(d.firmware, "RM520NCNAAR03A03M4G");
    assert_eq!(d.imei, "866355057849136");
    assert_eq!(d.serial, "866355057849136");
    assert_eq!(d.hw_version, "Unknown");
    assert_eq!(d.sim_status, "READY");
    assert_eq!(d.imsi, "460001234567890");
    assert_eq!(d.iccid, "89860012345678901234");
    assert_eq!(d.phone, "+8613800000000");
    assert_eq!(d.net_status, "Registered (home)");
    assert_eq!(d.signal_quality, "-51 dBm");
    assert_eq!(d.temperature, "41 °C");
    assert_eq!(d.bands, "LTE B3");
    let (d, _) = run(|r| b.read_device_info(r), fail);
    assert_eq!(d.manufacturer, "Unknown");
    assert_eq!(d.imsi, "");
    assert_eq!(d.phone, "");
    assert_eq!(d.iccid, "Unknown");
    assert_eq!(d.net_status, "Unknown");
    assert_eq!(d.temperature, "-- °C");
    assert_eq!(d.bands, "--");
}

#[test]
fn system_commands() {
    let b = backend();
    assert_eq!(names(&run(|r| b.send_reboot(r), fail).1), vec!["AT+CFUN=1,1"]);
    assert_eq!(names(&run(|r| b.send_factory_reset(r), fail).1), vec!["AT&F0"]);
    assert_eq!(names(&run(|r| b.set_airplane_mode(true, r), ok).1), vec!["AT+CFUN=4"]);
    assert_eq!(names(&run(|r| b.set_airplane_mode(false, r), ok).1), vec!["AT+CFUN=1"]);
    assert_eq!(b.device_name(), b.profile.name);
}

#[test]
fn band_locks() {
    let b = backend();
    let (_, sent) = run(|r| b.set_band_lock(true, "41:78", r), ok);
    assert_eq!(names(&sent), vec!["AT+QNWPREFCFG=\"nr5g_band\",41:78"]);
    for all in ["", "all"] {
        let (_, sent) = run(|r| b.set_band_lock(true, all, r), ok);
        assert_eq!(sent[0].cmd, format!("AT+QNWPREFCFG=\"nr5g_band\",{}", b.profile.default_nr_bands));
        let (_, sent) = run(|r| b.set_band_lock(false, all, r), ok);
        assert_eq!(sent[0].cmd, format!("AT+QNWPREFCFG=\"lte_band\",{}", b.profile.default_lte_bands));
    }
}

#[test]
fn cell_locks() {
    let b = backend();
    let of = |tech: &str, band: Option<u32>, enable: bool| {
        run(|r| b.set_cell_lock(tech, 7, 504990, band, enable, r), ok)
    };
    assert_eq!(names(&of("5G", Some(41), true).1), vec!["AT+QNWLOCK=\"common/5g\",7,504990,30,41"]);
    assert_eq!(names(&of("5g", Some(28), true).1), vec!["AT+QNWLOCK=\"common/5g\",7,504990,15,28"]);
    assert_eq!(names(&of("lte", None, true).1), vec!["AT+QNWLOCK=\"common/lte\",1,504990,7"]);
    assert_eq!(names(&of("5g", None, false).1), vec!["AT+QNWLOCK=\"common/5g\",0"]);
    assert_eq!(names(&of("lte", None, false).1), vec!["AT+QNWLOCK=\"common/lte\",0"]);
    let (r, sent) = of("5g", None, true);
    assert_eq!(r, Err("5G 锁小区必须提供 Band".to_string()));
    assert!(sent.is_empty());
}

#[test]
fn diagnostics() {
    let b = backend();
    let of = |d: DiagnosticType| names(&run(|r| b.get_diagnostics(d, r), ok).1).join(" ");
    assert_eq!(of(DiagnosticType::Neighbour), "AT+QENG=\"neighbourcell\"");
    assert_eq!(of(DiagnosticType::MbnList), "AT+QMBNCFG=\"List\"");
    assert_eq!(of(DiagnosticType::AutoSelQuery), "AT+QMBNCFG=\"AutoSel\"");
    assert_eq!(of(DiagnosticType::Qlts), "AT+QLTS=2");
    let (r, sent) = run(
        |r| b.get_diagnostics(DiagnosticType::Qlts, r),
        |c| if c == "AT+QLTS" { ok(c) } else { fail(c) },
    );
    assert_eq!(names(&sent), vec!["AT+QLTS=2", "AT+QLTS"]);
    assert!(r.is_ok());
}

#[test]
fn polls() {
    let b = backend();
    let reply = |c: &str| -> Result<String, String> {
        Ok(match c {
            "AT+CGPADDR" => "+CGPADDR: 1,\"10.0.0.1\"\r\nOK",
            "AT+CPIN?" => "+CPIN: READY\r\nOK",
            "AT+QTEMP" => "+QTEMP: \"cpuss-0-usr\",\"41\"\r\nOK",
            "AT+QGDAT?" => "+QGDAT: 1024,2048\r\nOK",
            _ => "OK",
        }
        .to_string())
    };
    let (t, sent) = run(|r| b.poll_telemetry(r), reply);
    assert_eq!(
        names(&sent),
        vec![
            "AT+CGPADDR", "AT+QENG=\"servingcell\"", "AT+QCAINFO", "AT+CPIN?", "AT+QTEMP",
            "AT+QGDNRCNT?", "AT+QGDAT?",
        ]
    );
    assert_eq!(t.ipv4.as_deref(), Some("10.0.0.1"));
    assert_eq!(t.sim_status.as_deref(), Some("READY"));
    assert_eq!(t.temperature.as_deref(), Some("41 °C"));
    assert!(t.traffic_stats.is_some());
    let (t, _) = run(|r| b.poll_telemetry(r), fail);
    assert_eq!(t, Default::default());
    let nr = "+QGDNRCNT: 1024,2097152\r\nOK";
    let (t, sent) = run(
        |r| b.poll_telemetry(r),
        |c| if c == "AT+QGDNRCNT?" { Ok(nr.to_string()) } else { fail(c) },
    );
    assert_eq!(t.traffic_stats.as_deref(), Some("TX 1.00 KB / RX 2.00 MB"));
    assert_eq!(sent.len(), 6);
}

#[test]
fn static_information() {
    let b = backend();
    let reply = |c: &str| -> Result<String, String> {
        Ok(match c {
            "AT+CGMR" => "RM520NCNAAR03A03M4G\r\n\r\nOK",
            "AT+QUIMSLOT?" => "+QUIMSLOT: 2\r\nOK",
            "AT+QSPN" => "+QSPN: \"CHN-UNICOM\",\"UNICOM\",\"\",0,\"46001\"\r\nOK",
            "AT+CGDCONT?" => "+CGDCONT: 1,\"IP\",\"ims\"\r\n+CGDCONT: 2,\"IP\",\"3gnet\"\r\nOK",
            _ => "OK",
        }
        .to_string())
    };
    let (s, sent) = run(|r| b.read_static_info(r), reply);
    assert_eq!(names(&sent), vec!["AT+CGMR", "AT+QUIMSLOT?", "AT+QSPN", "AT+CGDCONT?"]);
    assert_eq!(s.firmware_version, "RM520NCNAAR03A03M4G");
    assert_eq!(s.active_sim, "SIM 2");
    assert_eq!(s.network_provider, "CHN-UNICOM");
    assert_eq!(s.apn, "3gnet");
    let (s, sent) = run(|r| b.read_static_info(r), fail);
    assert_eq!(sent.len(), 6);
    assert_eq!(s.firmware_version, "NA");
    assert_eq!(s.active_sim, "NA");
    assert_eq!(s.network_provider, "Unknown");
    assert_eq!(s.apn, "N/A");
    let (s, _) = run(
        |r| b.read_static_info(r),
        |c| if c == "AT+CGDCONT?" { Ok("+CGDCONT: 1,\"IP\",\"ims\"".to_string()) } else { fail(c) },
    );
    assert_eq!(s.apn, "ims");
}

#[test]
fn usb_modes() {
    let b = backend();
    let (_, sent) = run(|r| b.set_usb_net_mode(5, r), ok);
    assert_eq!(names(&sent), vec!["AT+QCFG=\"usbnet\",5"]);
    let (r, sent) = run(|r| b.set_usb_net_mode(6, r), ok);
    assert!(r.is_err());
    assert!(sent.is_empty());
    for (n, name) in [
        ("0", "RMNET (QMI)"),
        ("1", "ECM (Linux/Mac免驱)"),
        ("2", "MBIM (Win10/11原生)"),
        ("3", "RNDIS (Windows免驱)"),
        ("4", "NCM (SDX55)"),
        ("5", "NCM (SDX62 高速网卡)"),
        ("9", "Unknown"),
        ("x", "RMNET (QMI)"),
    ] {
        let raw = format!("+QCFG: \"usbnet\",{}\r\nOK\r\n", n);
        let (u, sent) = run(|r| b.get_usb_config(r), |_| Ok(raw.clone()));
        assert_eq!(names(&sent), vec!["AT+QCFG=\"usbnet\""]);
        assert_eq!(u.usbnet_name, name);
        assert!(u.usbnet_supported);
    }
    let (u, _) = run(|r| b.get_usb_config(r), fail);
    assert_eq!(u.usbnet_mode, 0);
    assert_eq!(u.usbnet_name, "N/A (指令不支持)");
    assert!(!u.usbnet_supported);
}

#[test]
fn slots_and_carrier_files() {
    let b = backend();
    assert_eq!(names(&run(|r| b.set_sim_slot(2, r), ok).1), vec!["AT+QUIMSLOT=2"]);
    let (r, sent) = run(|r| b.set_sim_slot(3, r), ok);
    assert_eq!(r, Err("无效的 SIM 卡槽，仅支持 1/2: 3".to_string()));
    assert!(sent.is_empty());
    let raw = "+QMBNCFG: \"List\",0,1,\"ROW_Generic\"\r\n+QMBNCFG: \"AutoSel\",1\r\n+QMBNCFG: \"List\",1,0,\"\"\r\nOK\r\n";
    let (r, sent) = run(|r| b.get_mbn_list(r), |_| Ok(raw.to_string()));
    assert_eq!(names(&sent), vec!["AT+QMBNCFG=\"List\""]);
    let list = r.unwrap();
    assert_eq!(list.len(), 1);
    assert_eq!((list[0].index, list[0].state, list[0].name.as_str()), (0, 1, "ROW_Generic"));
    let (r, _) = run(|r| b.get_mbn_list(r), ok);
    assert_eq!(r, Err("未解析到 MBN 列表: OK".to_string()));
    assert!(run(|r| b.get_mbn_list(r), fail).0.is_err());
    let (_, sent) = run(|r| b.set_mbn("ROW\"_Generic", r), ok);
    assert_eq!(names(&sent), vec!["AT+QMBNCFG=\"Select\",\"ROW_Generic\""]);
    let (r, sent) = run(|r| b.set_mbn("\"\r\n", r), ok);
    assert_eq!(r, Err("MBN 名称不能为空".to_string()));
    assert!(sent.is_empty());
}

#[test]
fn operators_in_three_steps() {
    let of = |qspn: &str, cops: &str, qeng: &str| {
        let ((name, used), sent) = run(
            |r| fetch_network_provider(r, 0),
            |c| {
                Ok(match c {
                    "AT+QSPN" => qspn,
                    "AT+COPS?" => cops,
                    _ => qeng,
                }
                .to_string())
            },
        );
        assert_eq!(used, sent.len());
        (name, used)
    };
    assert_eq!(of("+QSPN: \"4E2D56FD\"", "", ""), ("中国".to_string(), 1));
    assert_eq!(of("+QSPN: \"????\"", "+COPS: 0,0,\"CMCC\",7", ""), ("CMCC".to_string(), 2));
    let cell = |mcc: &str, mnc: &str| {
        format!("+QENG: \"servingcell\",\"NOCONN\",\"LTE\",\"FDD\",{mcc},{mnc},ABC,1")
    };
    for (mnc, name) in [
        ("00", "中国移动"), ("02", "中国移动"), ("07", "中国移动"), ("01", "中国联通"),
        ("03", "中国电信"), ("11", "中国电信"), ("15", "Unknown"),
    ] {
        assert_eq!(of("OK", "+COPS: 0", &cell("460", mnc)), (name.to_string(), 3));
    }
    assert_eq!(of("OK", "OK", "OK"), ("Unknown".to_string(), 3));
}

#[test]
fn bands_are_sorted_by_number() {
    let of = |qeng: &str, qca: &str| {
        run(
            |r| query_device_bands(r, 0),
            |c| Ok(if c == "AT+QCAINFO" { qca } else { qeng }.to_string()),
        )
        .0
    };
    assert_eq!(
        of(
            "",
            "+QCAINFO: \"PCC\",1,6,\"NR5G BAND 78\",1\n+QCAINFO: \"SCC\",1,6,\"NR5G BAND 5\",1\n+QCAINFO: \"SCC\",1,6,\"LTE BAND 41\",1\n+QCAINFO: \"SCC\",1,6,\"3\",1\n+QCAINFO: \"SCC\",1,6,\"LTE BAND 3\",1\n+QCAINFO: \"SCC\",1,6,\"x\",1"
        ),
        "NR n5/n78, LTE B3/B41"
    );
    assert_eq!(of("OK", "OK"), "--");
}

#[test]
fn program_arguments() {
    let c = send_at_command_inner("AT+CSQ");
    assert_eq!(spawn_args("/dev/smd11", &c), vec!["-p", "/dev/smd11", "AT+CSQ"]);
    let c = send_sms_command_inner("AT+CMGS=\"1\"", "hi", None);
    assert_eq!(
        spawn_args("/dev/smd11", &c),
        vec!["-p", "/dev/smd11", "--message", "hi", "AT+CMGS=\"1\""]
    );
    let c = send_sms_command_inner("AT+CMGS=\"1\"", "hi", Some("4F60"));
    assert_eq!(
        spawn_args("/dev/smd11", &c),
        vec!["-p", "/dev/smd11", "--hex-body", "4F60", "AT+CMGS=\"1\""]
    );
}

#[test]
fn program_outcomes() {
    let c = send_at_command_inner("AT+CSQ");
    let exited = |success: bool, stdout: &[u8], stderr: &[u8]| ProcessOutcome::Exited {
        success,
        status: "exit status: 1".to_string(),
        stdout: stdout.to_vec(),
        stderr: stderr.to_vec(),
    };
    assert_eq!(
        judge_outcome(&c, &ProcessOutcome::NotStarted("no file".to_string())),
        Err("atcmd_rs启动失败: no file".to_string())
    );
    assert_eq!(
        judge_outcome(&c, &ProcessOutcome::Lost("gone".to_string())),
        Err("atcmd_rs执行失败: gone".to_string())
    );
    assert_eq!(judge_outcome(&c, &ProcessOutcome::TimedOut), Err("AT命令超时(10s): AT+CSQ".to_string()));
    assert_eq!(
        judge_outcome(&c, &exited(false, b"", b" busy\xff \n")),
        Err("atcmd_rs失败 (exit=exit status: 1): busy\u{fffd}".to_string())
    );
    assert_eq!(judge_outcome(&c, &exited(true, b"\xe4\xb8\xadx\xff\r\nOK\r\n", b"")), Ok("中x\u{fffd}\r\nOK\r\n".to_string()));
    assert_eq!(
        judge_outcome(&c, &exited(true, b"\r\n+CME ERROR: 3\r\n", b"")),
        Err("AT命令返回错误: +CME ERROR: 3".to_string())
    );
}

#[test]
fn judging_responses() {
    assert!(at_response_has_error("x\nERROR\n"));
    assert!(!at_response_has_error("ERRORS\nOK"));
    assert!(at_exec_failed("  ERROR: x"));
    assert!(!at_exec_failed("OK"));
    assert_eq!(at_response_preview("AT+CSQ\r\n\r\n+CSQ: 1,2\r\nOK"), "+CSQ: 1,2");
    assert_eq!(at_response_preview("OK\r\n"), "OK\r\n");
    assert_eq!(send_at_get_line(&Ok("AT+CGMM\r\n RM520N \r\nOK".to_string())), Some("RM520N".to_string()));
    assert_eq!(send_at_get_line(&Ok("BOOK\r\n".to_string())), None);
    assert_eq!(send_at_get_line(&Err("x".to_string())), None);
}

#[test]
fn mock_module() {
    let m = MockBackend;
    assert_eq!(m.exec_raw_at("AT+CSQ"), "+MOCK_AT: AT+CSQ -> OK\r\n");
    assert_eq!(m.read_sms_list(), "+CMGL: 0 messages\r\nOK\r\n");
    assert_eq!(m.configure_apn("a", "b", "c", 1), Ok("APN a 设置已应用 (Mock)".to_string()));
    assert_eq!(m.set_network_mode_pref("lte"), Ok("OK\r\n".to_string()));
    assert_eq!(m.set_data_session(true), Ok("拨号连接指令已下发 (Mock)".to_string()));
    assert_eq!(m.set_data_session(false), Ok("拨号断开指令已下发 (Mock)".to_string()));
    let nets = m.scan_available_networks();
    assert_eq!(nets.len(), 3);
    assert_eq!(nets[1].operator, "中国联通 (MOCK)");
    assert_eq!(nets[1].short_name, None);
    assert_eq!(nets[1].band, "B1");
    assert!(m.send_sms_msg("1", "x"));
    assert_eq!(m.get_diagnostics(DiagnosticType::MbnList), Ok("+MOCK_DIAG: mbn_list -> OK\r\n".to_string()));
    assert_eq!(m.get_usb_config().usbnet_name, "ECM (Linux/Mac免驱) [MOCK]");
    assert_eq!(m.get_mbn_list()[1].name, "RM520NGLAAR01A02M4G_01.006 (MOCK)");
    assert_eq!(m.read_static_info().apn, "ctnet (MOCK)");
    assert_eq!(m.poll_telemetry().ipv4.as_deref(), Some("10.88.99.100"));
    assert_eq!(m.device_name(), "Mock Backend (Testing)");
}
