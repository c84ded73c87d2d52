//! Requests, polls and the merging of snapshots.

use quectel_webui::actor::action::{AtAction, DiagnosticType};
use quectel_webui::actor::poll::{
    initial_global, telemetry_dead, Findings, HostReadings, PollState, TickStep, UpdateType,
    IDLE_INTERVAL_SECS, MAX_CONSECUTIVE_FAILURES,
};
use quectel_webui::actor::request::{
    begin, handle_at_request, new_interval, ActorReply, ActorStep, BackendCall, BackendResult,
    Diagnostics,
};
use quectel_webui::actor::telemetry::{keep_valid, GlobalTelemetry, TelemetryData};
use quectel_webui::backend::{MockBackend, StaticInfo};

fn text(s: &str) -> String {
    s.to_string()
}

/// Runs a request; gives the reply and the calls that it made.
fn run(action: &AtAction, mut results: Vec<BackendResult>) -> (ActorReply, Vec<BackendCall>) {
    results.reverse();
    let mut got = Vec::new();
    let mut calls = Vec::new();
    loop {
        match handle_at_request(action, &mut got) {
            ActorStep::Call(c) => {
                calls.push(c);
                got.push(results.pop().expect("no more calls"));
            }
            ActorStep::Reply(r) => return (r, calls),
        }
    }
}

fn fine(s: &str) -> BackendResult {
    BackendResult::Outcome(Ok(text(s)))
}

fn bad(s: &str) -> BackendResult {
    BackendResult::Outcome(Err(text(s)))
}

fn raw(s: &str) -> BackendResult {
    BackendResult::Text(text(s))
}

#[test]
fn manual_commands_are_normalized() {
    let (r, calls) = run(&AtAction::ManualAt(text(" +csq ")), vec![raw("OK")]);
    assert_eq!(calls, vec![BackendCall::ExecRawAt(text("AT+csq"))]);
    assert_eq!(r, ActorReply::AtRes { data: text("OK") });
}

#[test]
fn intervals_have_a_floor() {
    for (secs, set) in [(0, 3), (3, 3), (4, 4), (u64::MAX, u64::MAX)] {
        let action = AtAction::SetInterval(secs);
        assert_eq!(begin(&action), None);
        assert_eq!(new_interval(secs), set);
        let (r, calls) = run(&action, vec![]);
        assert!(calls.is_empty());
        assert_eq!(r, ActorReply::SettingsLog { msg: format!("轮询间隔已调整为 {} 秒", set) });
    }
}

#[test]
fn messages() {
    let (r, calls) = run(&AtAction::GetSmsList, vec![raw("+CMGL: 1\n4F60597D\nOK")]);
    assert_eq!(calls, vec![BackendCall::ReadSmsList]);
    assert_eq!(r, ActorReply::SmsList { data: text("+CMGL: 1\n你好\nOK\n") });
    let send = AtAction::SendSms(text("10086"), text("hi"));
    let (r, calls) = run(&send, vec![BackendResult::Sent(true)]);
    assert_eq!(calls, vec![BackendCall::SendSmsMsg(text("10086"), text("hi"))]);
    assert_eq!(
        r,
        ActorReply::SmsSent { status: text("SMS sent successfully"), recipient: text("10086") }
    );
    let (r, _) = run(&send, vec![BackendResult::Sent(false)]);
    assert_eq!(r, ActorReply::SmsSent { status: text("SMS failed"), recipient: text("10086") });
}

#[test]
fn network_status() {
    let apn = AtAction::SetApn(text("cmnet"), text("u"), text("p"), 1);
    let (r, calls) = run(&apn, vec![fine("done")]);
    assert_eq!(calls, vec![BackendCall::ConfigureApn(text("cmnet"), text("u"), text("p"), 1)]);
    assert_eq!(
        r,
        ActorReply::NetworkStatus {
            status: Some(text("APN settings applied")),
            success: true,
            msg: text("done"),
            apn: Some(text("cmnet")),
        }
    );
    let (r, _) = run(&apn, vec![bad("no")]);
    assert_eq!(
        r,
        ActorReply::NetworkStatus {
            status: Some(text("APN settings failed")),
            success: false,
            msg: text("no"),
            apn: Some(text("cmnet")),
        }
    );
    let (r, _) = run(&AtAction::SetNetworkMode(text("lte")), vec![bad("no")]);
    assert_eq!(
        r,
        ActorReply::NetworkStatus { status: None, success: false, msg: text("no"), apn: None }
    );
    for (connect, result, status) in [
        (true, fine("x"), "Connect command sent"),
        (false, fine("x"), "Disconnect command sent"),
        (true, bad("x"), "Connect command failed"),
        (false, bad("x"), "Disconnect command failed"),
    ] {
        match run(&AtAction::NetConnect(connect), vec![result]).0 {
            ActorReply::NetworkStatus { status: Some(s), apn: None, .. } => assert_eq!(s, status),
            other => panic!("{:?}", other),
        }
    }
}

#[test]
fn system_requests() {
    for (action, call, msg) in [
        (AtAction::Reboot, BackendCall::SendReboot, "Reboot command sent to module."),
        (AtAction::FactoryReset, BackendCall::SendFactoryReset, "Factory reset command sent to module."),
        (AtAction::FlightMode(true), BackendCall::SetAirplaneMode(true), "Flight mode turned ON"),
        (AtAction::FlightMode(false), BackendCall::SetAirplaneMode(false), "Flight mode turned OFF"),
    ] {
        let (r, calls) = run(&action, vec![BackendResult::Nothing]);
        assert_eq!(calls, vec![call]);
        assert_eq!(r, ActorReply::SettingsLog { msg: text(msg) });
    }
    let info = MockBackend.read_device_info();
    match run(&AtAction::GetDeviceInfo, vec![BackendResult::Info(info)]).0 {
        ActorReply::DeviceInfo { info, max_rate, volte, gnss } => {
            assert_eq!(info, MockBackend.read_device_info());
            assert_eq!((max_rate, volte, gnss), (text("--"), text("--"), text("--")));
        }
        other => panic!("{:?}", other),
    }
    match run(&AtAction::NetworkScan, vec![BackendResult::Networks(MockBackend.scan_available_networks())]).0 {
        ActorReply::ScanResult { status, networks } => {
            assert_eq!(status, "Scan complete.");
            assert_eq!(networks, MockBackend.scan_available_networks());
        }
        other => panic!("{:?}", other),
    }
}

#[test]
fn locks() {
    let band = AtAction::SetBandLock { is_nr5g: true, bands: text("78") };
    let (r, calls) = run(&band, vec![fine("OK")]);
    assert_eq!(calls, vec![BackendCall::SetBandLock(true, text("78"))]);
    assert_eq!(r, ActorReply::BandLockRes { success: true, msg: text("OK") });
    let cell = AtAction::SetCellLock { tech: text("5g"), pci: 1, earfcn: 2, band: None, enable: true };
    let (r, _) = run(&cell, vec![bad("5G 锁小区必须提供 Band")]);
    assert_eq!(r, ActorReply::CellLockRes { success: false, msg: text("5G 锁小区必须提供 Band") });
}

#[test]
fn diagnostics_carry_cells() {
    let list = "+QENG: \"neighbourcell\",\"LTE\",460,01,123,6300,-95,-8,-9,27";
    match run(&AtAction::GetDiagnostics(DiagnosticType::Neighbour), vec![fine(list)]).0 {
        ActorReply::DiagnosticsRes { success, msg, data: Diagnostics::Cells { raw, cells } } => {
            assert!(success);
            assert_eq!(msg, list);
            assert_eq!(raw, list);
            assert_eq!(cells.len(), 1);
            assert_eq!(cells[0].pci, "123");
        }
        other => panic!("{:?}", other),
    }
    assert_eq!(
        run(&AtAction::GetDiagnostics(DiagnosticType::Neighbour), vec![bad("no")]).0,
        ActorReply::DiagnosticsRes {
            success: false,
            msg: text("no"),
            data: Diagnostics::Cells { raw: text(""), cells: vec![] },
        }
    );
    assert_eq!(
        run(&AtAction::GetDiagnostics(DiagnosticType::Qlts), vec![fine("x")]).0,
        ActorReply::DiagnosticsRes { success: true, msg: text("x"), data: Diagnostics::Raw(Some(text("x"))) }
    );
    assert_eq!(
        run(&AtAction::GetDiagnostics(DiagnosticType::Qlts), vec![bad("x")]).0,
        ActorReply::DiagnosticsRes { success: false, msg: text("x"), data: Diagnostics::Raw(None) }
    );
}

#[test]
fn usb_modes_are_read_back() {
    let set = AtAction::SetUsbNetMode(1);
    let note = text("注意：USB 模式修改后通常需要重启模组方可生效！");
    let (r, calls) = run(&set, vec![fine("OK"), BackendResult::Usb(Ok(MockBackend.get_usb_config()))]);
    assert_eq!(calls, vec![BackendCall::SetUsbNetMode(1), BackendCall::GetUsbConfig]);
    assert_eq!(
        r,
        ActorReply::UsbNetRes {
            success: true,
            msg: text("OK"),
            note: note.clone(),
            config: Some(MockBackend.get_usb_config()),
        }
    );
    let (r, _) = run(&set, vec![fine("OK"), BackendResult::Usb(Err(text("no")))]);
    assert_eq!(
        r,
        ActorReply::UsbNetRes { success: true, msg: text("OK"), note: note.clone(), config: None }
    );
    let (r, calls) = run(&set, vec![bad("no")]);
    assert_eq!(calls.len(), 1);
    assert_eq!(r, ActorReply::UsbNetRes { success: false, msg: text("no"), note, config: None });
    assert_eq!(
        run(&AtAction::GetUsbConfig, vec![BackendResult::Usb(Err(text("no")))]).0,
        ActorReply::UsbConfigInfo { config: Err(text("no")) }
    );
}

#[test]
fn slots_and_carrier_files_are_answered() {
    assert_eq!(
        run(&AtAction::SetSimSlot(2), vec![fine("anything")]).0,
        ActorReply::SimSlotRes {
            success: true,
            slot: 2,
            msg: text("OK"),
            note: text("切换卡槽后需重启模组方可生效"),
        }
    );
    assert_eq!(
        run(&AtAction::SetMbn(text("x")), vec![bad("no")]).0,
        ActorReply::MbnSetRes {
            success: false,
            msg: text("no"),
            note: Some(text("选择 MBN 后需重启模组方可生效")),
        }
    );
    assert_eq!(
        run(&AtAction::GetMbnList, vec![BackendResult::Mbn(Err(text("no")))]).0,
        ActorReply::MbnListRes { list: Err(text("no")) }
    );
    let (r, calls) = run(&AtAction::SetMbnAutoSel(true), vec![raw("OK")]);
    assert_eq!(calls, vec![BackendCall::ExecRawAt(text("AT+QMBNCFG=\"AutoSel\",1"))]);
    assert_eq!(r, ActorReply::MbnSetRes { success: true, msg: text("MBN AutoSel 已启用"), note: None });
    let (r, calls) = run(&AtAction::SetMbnAutoSel(false), vec![raw("ERROR: x\nERROR")]);
    assert_eq!(calls, vec![BackendCall::ExecRawAt(text("AT+QMBNCFG=\"AutoSel\",0"))]);
    assert_eq!(r, ActorReply::MbnSetRes { success: false, msg: text("ERROR: x"), note: None });
    let (r, _) = run(&AtAction::DeactivateMbn, vec![raw("OK")]);
    assert_eq!(
        r,
        ActorReply::MbnSetRes {
            success: true,
            msg: text("当前 MBN 已停用"),
            note: Some(text("需重启模组方可生效")),
        }
    );
    let (r, _) = run(&AtAction::DeactivateMbn, vec![raw("ERROR")]);
    assert_eq!(r, ActorReply::MbnSetRes { success: false, msg: text("ERROR"), note: Some(text("")) });
}

#[test]
fn identities() {
    match run(&AtAction::ReadImei, vec![raw("nothing")]).0 {
        ActorReply::ImeiRes(r) => assert_eq!((r.kind.as_str(), r.success, r.imei), ("read", false, None)),
        other => panic!("{:?}", other),
    }
    let write = AtAction::WriteImei(text("86\"6"));
    let (r, calls) = run(&write, vec![raw("\r\nOK\r\n")]);
    assert_eq!(calls, vec![BackendCall::ExecRawAt(text("AT+EGMR=1,7,\"866\""))]);
    match r {
        ActorReply::ImeiRes(r) => assert_eq!((r.kind.as_str(), r.success, r.imei), ("write", true, None)),
        other => panic!("{:?}", other),
    }
    match run(&write, vec![raw("ERROR: x OK")]).0 {
        ActorReply::ImeiRes(r) => assert!(!r.success),
        other => panic!("{:?}", other),
    }
}

#[test]
fn setups_stop_at_the_first_failure() {
    let eth = AtAction::SetEthConfig { driver: text("r8125"), pcie_rc: true };
    let (r, calls) = run(&eth, vec![raw("OK"), raw("OK"), raw("OK")]);
    assert_eq!(
        calls,
        vec![
            BackendCall::ExecRawAt(text("AT+QETH=\"eth_driver\",\"r8125\",1")),
            BackendCall::ExecRawAt(text("AT+QCFG=\"pcie/mode\",1")),
            BackendCall::ExecRawAt(text("AT+QCFG=\"data_interface\",1,0")),
        ]
    );
    assert_eq!(
        r,
        ActorReply::EthRes {
            success: true,
            msg: text("网口配置全部下发成功，请热重启 (CFUN=1,1) 或断电重启使网卡生效"),
        }
    );
    for (results, msg) in [
        (vec![raw(" ERROR ")], "加载网卡驱动失败: ERROR"),
        (vec![raw("OK"), raw("ERROR")], "设置 PCIe 模式失败: ERROR"),
        (vec![raw("OK"), raw("OK"), raw("ERROR")], "设置数据通道失败: ERROR"),
    ] {
        let n = results.len();
        let (r, calls) = run(&eth, results);
        assert_eq!(calls.len(), n);
        assert_eq!(r, ActorReply::EthRes { success: false, msg: text(msg) });
    }
    let plain = AtAction::SetEthConfig { driver: text("r8125"), pcie_rc: false };
    let (_, calls) = run(&plain, vec![raw("OK"), raw("OK")]);
    assert_eq!(calls[1], BackendCall::ExecRawAt(text("AT+QCFG=\"pcie/mode\",0")));
    let (r, calls) = run(&AtAction::SetIpptConfig { mode: text("dmz") }, vec![raw("OK"), raw("OK"), raw("OK")]);
    assert_eq!(
        calls,
        vec![
            BackendCall::ExecRawAt(text("AT+QMAPWAC=1")),
            BackendCall::ExecRawAt(text("AT+QMAP=\"LANIP\",192.168.225.2,192.168.225.2,192.168.225.1,1")),
            BackendCall::ExecRawAt(text("AT+QMAP=\"DMZ\",1,4,192.168.225.2")),
        ]
    );
    assert!(matches!(r, ActorReply::IpptRes { success: true, .. }));
    let nat = AtAction::SetIpptConfig { mode: text("nat") };
    let (r, calls) = run(&nat, vec![raw("OK"), raw("OK"), raw("ERROR")]);
    assert_eq!(
        calls[1],
        BackendCall::ExecRawAt(text("AT+QMAP=\"LANIP\",192.168.225.20,192.168.225.100,192.168.225.1,1"))
    );
    assert_eq!(calls[2], BackendCall::ExecRawAt(text("AT+QMAP=\"DMZ\",0")));
    assert_eq!(r, ActorReply::IpptRes { success: false, msg: text("设置 DMZ 失败: ERROR") });
}

fn host() -> HostReadings {
    HostReadings {
        soc_temperature: Some(text("50 °C")),
        uptime_mins: 7,
        cpu_usage: Some(text("1.0%")),
        memory_usage: Some(text("2.0%")),
        updated: text("now"),
    }
}

fn known() -> GlobalTelemetry {
    initial_global(StaticInfo {
        firmware_version: text("fw"),
        active_sim: text("SIM 1"),
        network_provider: text("op"),
        apn: text("net"),
    })
}

#[test]
fn polling_slows_down_without_viewers() {
    let mut p = PollState::new();
    assert_eq!((p.interval_secs, p.current_interval_secs), (5, 5));
    assert_eq!(p.reschedule(true), None);
    assert_eq!(p.reschedule(false), Some(IDLE_INTERVAL_SECS));
    assert_eq!(p.reschedule(false), None);
    assert_eq!(p.set_interval(1), 3);
    assert_eq!((p.interval_secs, p.current_interval_secs), (3, 3));
    assert_eq!(p.reschedule(false), Some(15));
    assert_eq!(p.reschedule(true), Some(3));
}

#[test]
fn requests_set_the_interval() {
    let mut p = PollState { interval_secs: 5, current_interval_secs: 15, consecutive_failures: 2 };
    assert_eq!(p.on_request(&AtAction::Reboot), None);
    assert_eq!((p.interval_secs, p.current_interval_secs), (5, 15));
    let action = AtAction::SetInterval(1);
    assert_eq!(p.on_request(&action), Some(3));
    assert_eq!(
        p,
        PollState { interval_secs: 3, current_interval_secs: 3, consecutive_failures: 2 }
    );
    assert_eq!(run(&action, vec![]).0, ActorReply::SettingsLog { msg: text("轮询间隔已调整为 3 秒") });
}

#[test]
fn ticks_without_viewers_are_silent() {
    let mut p = PollState::new();
    assert_eq!(p.on_tick(0, None, &known()), TickStep::Rest { publish: None, restart: Some(15) });
    assert_eq!(p.on_tick(0, None, &known()), TickStep::Rest { publish: None, restart: None });
    assert_eq!(p.current_interval_secs, 15);
    assert_eq!(p.on_tick(2, None, &known()), TickStep::Poll);
    let findings = Findings { telemetry: MockBackend.poll_telemetry(), host: host() };
    match p.on_tick(2, Some(findings), &known()) {
        TickStep::Rest { publish: Some(publication), restart } => {
            assert_eq!(restart, Some(5));
            assert_eq!(publication.update_type, UpdateType::Delta);
            assert_eq!(publication.update_type.name(), "delta");
            let mut q = PollState::new();
            let expected = q.after_poll(MockBackend.poll_telemetry(), &known(), host());
            assert_eq!(publication.global, expected);
        }
        other => panic!("{:?}", other),
    }
    assert_eq!(p, PollState::new());
    assert_eq!(UpdateType::Full.name(), "full");
}

#[test]
fn three_dead_polls_mean_offline() {
    let mut p = PollState::new();
    let mut g = known();
    g.cpu_usage = Some(text("9%"));
    g.ipv4 = Some(text("10.0.0.1"));
    assert!(telemetry_dead(&TelemetryData::default()));
    for _ in 1..MAX_CONSECUTIVE_FAILURES {
        g = p.after_poll(TelemetryData::default(), &g, host());
        assert_eq!(g.ipv4.as_deref(), Some("10.0.0.1"));
        assert_eq!(g.cpu_usage.as_deref(), Some("9%"));
        assert_eq!(g.memory_usage.as_deref(), Some("2.0%"));
        assert_eq!(g.temperature.as_deref(), Some("50 °C"));
        assert_eq!(g.internet_connection.as_deref(), Some("Disconnected"));
        assert_eq!(g.uptime.as_deref(), Some("7 minutes"));
        assert_eq!(g.updated.as_deref(), Some("now"));
    }
    g = p.after_poll(TelemetryData::default(), &g, host());
    let mut off = known();
    off.internet_connection = Some(text("Disconnected"));
    off.uptime = Some(text("7 minutes"));
    off.cpu_usage = Some(text("1.0%"));
    off.memory_usage = Some(text("2.0%"));
    off.updated = Some(text("now"));
    assert_eq!(g, off);
    let g = p.after_poll(MockBackend.poll_telemetry(), &g, host());
    assert_eq!(p.consecutive_failures, 0);
    assert_eq!(g.internet_connection.as_deref(), Some("Connected"));
    assert_eq!(g.temperature.as_deref(), Some("42 °C"));
    assert_eq!(g.firmware_version.as_deref(), Some("fw"));
}

#[test]
fn merging_keeps_what_is_known() {
    let some = |s: &str| Some(text(s));
    assert_eq!(keep_valid(&some("NA"), &some("old")), some("--"));
    assert_eq!(keep_valid(&some("N/A"), &None), some("--"));
    assert_eq!(keep_valid(&some("--"), &None), some("--"));
    assert_eq!(keep_valid(&some(""), &some("old")), some("old"));
    assert_eq!(keep_valid(&None, &some("old")), some("old"));
    assert_eq!(keep_valid(&some("new"), &some("old")), some("new"));
    let mut t = TelemetryData::default();
    t.bands = some("n78");
    t.apn = some("ignored");
    let mut g = known();
    g.pci = some("1");
    let once = GlobalTelemetry::from_telemetry_and_global(&t, &g, some("u"), some("d"));
    assert_eq!(once.bands, some("n78"));
    assert_eq!(once.pci, some("1"));
    assert_eq!(once.apn, some("net"));
    assert_eq!(once.uptime, some("u"));
    let twice = GlobalTelemetry::from_telemetry_and_global(&t, &once, some("u"), some("d"));
    assert_eq!(twice, once);
}

#[test]
fn kinds_of_replies() {
    let kind = |action: AtAction, result: Option<BackendResult>| {
        run(&action, result.into_iter().collect()).0.kind()
    };
    assert_eq!(kind(AtAction::SetInterval(9), None), "settings_log");
    assert_eq!(kind(AtAction::ManualAt(text("ATI")), Some(raw("OK"))), "at_res");
    assert_eq!(kind(AtAction::SetMbn(text("x")), Some(bad("no"))), "mbn_set_res");
    assert_eq!(kind(AtAction::DeactivateMbn, Some(raw("OK"))), "mbn_set_res");
    assert_eq!(kind(AtAction::SetUsbNetMode(1), Some(bad("no"))), "usb_net_res");
    assert_eq!(kind(AtAction::SetIpptConfig { mode: text("nat") }, Some(raw("ERROR"))), "ippt_res");
}
