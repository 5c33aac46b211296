use rnd::cli::{parse_args, Command};
use rnd::ctl::{capability_lines, decimal, history_lines, read_history_ids, server_info_lines, urgency_name};
use rnd::dbus::{history_record, history_records, report_fields, report_kind, ReportValue};
use rnd::history::HistoryEntry;
use rnd::icon::{
    hint_key_might_be_icon, icon_from_path, icon_hint_order, image_data_rowstride, local_icon_path,
    may_have_icon_from_hint, scaled_icon_size, IconSource,
};
use rnd::installer::{activation_file, competing_daemons, installed_files, service_unit};
use rnd::notification::Urgency;
use rnd::text::{contains_lowercased, starts_with, strip};

fn entry(id: u32, body: &str, urgency: Urgency) -> HistoryEntry {
    HistoryEntry {
        id,
        app_name: "mail".to_string(),
        app_icon: "mail-icon".to_string(),
        summary: format!("sum{}", id),
        body: body.to_string(),
        urgency,
        timestamp: 1_700_000_000,
        expire_timeout: 5000,
    }
}

fn strings(v: &[&str]) -> Vec<String> {
    v.iter().map(|s| s.to_string()).collect()
}

#[test]
fn history_ids_are_unique_and_sorted() {
    let entries = vec![
        entry(5, "", Urgency::Low),
        entry(2, "", Urgency::Low),
        entry(5, "", Urgency::Low),
        entry(9, "", Urgency::Low),
        entry(2, "", Urgency::Low),
    ];
    assert_eq!(read_history_ids(&entries), vec![2, 5, 9]);
    assert_eq!(read_history_ids(&vec![]), Vec::<u32>::new());
}

#[test]
fn decimal_digits() {
    assert_eq!(decimal(0), "0");
    assert_eq!(decimal(42), "42");
    assert_eq!(decimal(u32::MAX), "4294967295");
}

#[test]
fn urgency_names_as_stored() {
    assert_eq!(urgency_name(Urgency::Low), "Low");
    assert_eq!(urgency_name(Urgency::Normal), "Normal");
    assert_eq!(urgency_name(Urgency::Critical), "Critical");
}

#[test]
fn history_listing() {
    assert_eq!(history_lines(&vec![], None), strings(&["No history entries found."]));
    let entries = vec![entry(3, "hello", Urgency::Critical), entry(1, "", Urgency::Normal)];
    assert_eq!(
        history_lines(&entries, None),
        strings(&["[3] Critical | mail | sum3", "    hello", "[1] Normal | mail | sum1"])
    );
    assert_eq!(history_lines(&entries, Some(1)), strings(&["[3] Critical | mail | sum3", "    hello"]));
    assert_eq!(history_lines(&entries, Some(0)), Vec::<String>::new());
    assert_eq!(history_lines(&entries, Some(10)).len(), 3);
}

#[test]
fn control_history_report() {
    let r = history_record(&entry(4, "line", Urgency::Low));
    assert_eq!(r.message, "<b>sum4</b>\nline");
    assert_eq!(r.body, "line");
    assert_eq!(r.summary, "sum4");
    assert_eq!(r.appname, "mail");
    assert_eq!(r.icon_path, "mail-icon");
    assert_eq!(r.id, 4);
    assert_eq!(r.timestamp, 1_700_000_000_000_000);
    assert_eq!(r.timeout, 5_000_000);
    assert_eq!(r.urgency, "LOW");
    assert_eq!(r.progress, -1);
    assert_eq!(r.default_action_name, "default");
    assert_eq!((r.category, r.stack_tag, r.urls), ("", "", ""));
    let mut e = entry(4, "", Urgency::Critical);
    e.expire_timeout = -1;
    let r = history_record(&e);
    assert_eq!(r.timeout, -1);
    assert_eq!(r.urgency, "CRITICAL");
    let all = history_records(&vec![entry(1, "", Urgency::Normal), entry(2, "", Urgency::Normal)]);
    assert_eq!(all.iter().map(|r| r.id).collect::<Vec<u32>>(), vec![1, 2]);
    assert_eq!(all[0].urgency, "NORMAL");
}

#[test]
fn icon_hint_keys() {
    assert!(hint_key_might_be_icon("image-path"));
    assert!(hint_key_might_be_icon("X-App-ICON"));
    assert!(hint_key_might_be_icon("IMAGE_DATA"));
    assert!(!hint_key_might_be_icon("urgency"));
    assert!(!hint_key_might_be_icon(""));
    assert!(may_have_icon_from_hint(&strings(&["urgency", "Image-Data"])));
    assert!(!may_have_icon_from_hint(&strings(&["urgency", "category"])));
    assert_eq!(
        icon_hint_order(&strings(&["urgency", "image-data", "app-icon", "image-path"])),
        strings(&["image-path", "image-data", "image-data", "app-icon", "image-path"])
    );
}

#[test]
fn icon_names_and_paths() {
    assert_eq!(local_icon_path("file://localhost/tmp/a.png"), "/tmp/a.png");
    assert_eq!(local_icon_path("file://localhostx/a.png"), "localhostx/a.png");
    assert_eq!(local_icon_path("file:///tmp/a.png"), "/tmp/a.png");
    assert_eq!(local_icon_path("dialog-information"), "dialog-information");
    assert_eq!(icon_from_path("", true), None);
    assert_eq!(icon_from_path("/tmp/a.png", true), Some(IconSource::LocalFile));
    assert_eq!(icon_from_path("https://x.org/a.png", false), Some(IconSource::Remote));
    assert_eq!(icon_from_path("http://x.org/a.png", false), Some(IconSource::Remote));
    assert_eq!(icon_from_path("dialog-information", false), Some(IconSource::ThemeName));
}

#[test]
fn image_data_geometry() {
    assert_eq!(image_data_rowstride(10, 10, 0, 16, 4), None);
    assert_eq!(image_data_rowstride(0, 10, 40, 8, 4), None);
    assert_eq!(image_data_rowstride(10, -1, 40, 8, 4), None);
    assert_eq!(image_data_rowstride(10, 10, 0, 8, 0), Some(10));
    assert_eq!(image_data_rowstride(10, 10, 12, 8, 9), Some(40));
    assert_eq!(image_data_rowstride(10, 10, 48, 8, 4), Some(48));
}

#[test]
fn icon_scaling() {
    assert_eq!(scaled_icon_size(32, 16), (32, 16));
    assert_eq!(scaled_icon_size(64, 64), (64, 64));
    assert_eq!(scaled_icon_size(128, 64), (64, 32));
    assert_eq!(scaled_icon_size(100, 33), (64, 21));
    assert_eq!(scaled_icon_size(3, 200), (1, 64));
    assert_eq!(scaled_icon_size(1, 128), (1, 64));
}

#[test]
fn command_line() {
    assert_eq!(parse_args(&strings(&["rnd"])), Command::Run);
    assert_eq!(parse_args(&strings(&["rnd", "--uninstall", "--install"])), Command::Uninstall { confirmed: false });
    assert_eq!(parse_args(&strings(&["rnd", "--yes", "--uninstall"])), Command::Uninstall { confirmed: true });
    assert_eq!(parse_args(&strings(&["rnd", "--install"])), Command::Install { start: true });
    assert_eq!(parse_args(&strings(&["rnd", "--install", "--no-start"])), Command::Install { start: false });
    assert_eq!(
        parse_args(&strings(&["rnd", "--install-rndctl", "--rndctl-path=/x/y=z", "--rndctl-path=/b"])),
        Command::InstallRndctl { path: Some("/x/y=z".to_string()) }
    );
    assert_eq!(parse_args(&strings(&["rnd", "--install-rndctl"])), Command::InstallRndctl { path: None });
}

#[test]
fn service_files() {
    assert_eq!(
        service_unit("ExecStart=%h/.cargo/bin/rnd\nX=%h/.cargo/bin/rnd", "/home/u/.local/bin/rnd"),
        "ExecStart=/home/u/.local/bin/rnd\nX=/home/u/.local/bin/rnd"
    );
    assert_eq!(activation_file("Exec=@@RND_BIN@@\n", "/b/rnd"), "Exec=/b/rnd\n");
    assert_eq!(activation_file("no placeholder", "/b/rnd"), "no placeholder");
    assert_eq!(installed_files().len(), 4);
    assert_eq!(installed_files()[3], ".config/systemd/user/rnd.service");
    assert_eq!(competing_daemons(), vec!["dunst", "mako"]);
}

#[test]
fn text_helpers() {
    assert!(starts_with("https://a", "https://"));
    assert!(!starts_with("http", "https"));
    assert_eq!(strip("file://x", "file://"), "x");
    assert_eq!(strip("x", "file://"), "x");
    assert!(contains_lowercased("AbCd", "bc"));
    assert!(!contains_lowercased("AbCd", "BC"));
}

#[test]
fn report_fields_in_order() {
    let f = report_fields(history_record(&entry(4, "line", Urgency::Low)));
    let keys: Vec<(&str, &str)> = f.iter().map(|x| (x.key, x.kind)).collect();
    assert_eq!(
        keys,
        vec![
            ("body", "s"),
            ("message", "s"),
            ("summary", "s"),
            ("appname", "s"),
            ("category", "s"),
            ("default_action_name", "s"),
            ("icon_path", "s"),
            ("id", "i"),
            ("timestamp", "x"),
            ("timeout", "x"),
            ("progress", "i"),
            ("urgency", "s"),
            ("stack_tag", "s"),
            ("urls", "s"),
        ]
    );
    assert_eq!(f[1].value, ReportValue::Text("<b>sum4</b>\nline".to_string()));
    assert_eq!(f[7].value, ReportValue::Int(4));
    assert_eq!(f[10].value, ReportValue::Int(-1));
    assert_eq!(f[11].value, ReportValue::Fixed("LOW"));
    assert_eq!(report_kind(), "aa{sv}");
}

#[test]
fn daemon_information_lines() {
    assert_eq!(capability_lines(&vec![]), strings(&["No capabilities reported."]));
    assert_eq!(
        capability_lines(&strings(&["body", "actions"])),
        strings(&["Capabilities:", "  - body", "  - actions"])
    );
    assert_eq!(
        server_info_lines("rnd", "rnd", "0.1.0", "1.2"),
        strings(&["Name: rnd", "Vendor: rnd", "Version: 0.1.0", "Spec Version: 1.2"])
    );
}
