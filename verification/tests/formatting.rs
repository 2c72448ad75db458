use technoafandi::timefmt::{format_time, log_line, unix_to_readable, utc_fields};
use technoafandi::versions::{
    cfg_version, find_installer_xml, game_versions, installer_xml_candidates, map_version,
    missing_installer_message, parse_game_version, unreadable_installer_message,
};
use technoafandi::config::{anadius_cfg, config_dll};
use technoafandi::update::{update_http_error, update_script, update_url};
use technoafandi::digest::{sha1_hex, sha256_hex, to_hex_lower};

#[test]
fn format_time_minutes_and_seconds() {
    assert_eq!(format_time(0), "00:00");
    assert_eq!(format_time(59), "00:59");
    assert_eq!(format_time(61), "01:01");
    assert_eq!(format_time(3599), "59:59");
}

#[test]
fn format_time_hours() {
    assert_eq!(format_time(3600), "01:00:00");
    assert_eq!(format_time(3661), "01:01:01");
    assert_eq!(format_time(360000), "100:00:00");
}

#[test]
fn unix_epoch_reads_as_1970() {
    assert_eq!(unix_to_readable(0), "1970-01-01 00:00:00 UTC");
}

#[test]
fn unix_leap_day() {
    assert_eq!(unix_to_readable(951782400), "2000-02-29 00:00:00 UTC");
}

#[test]
fn unix_recent_and_far_dates() {
    assert_eq!(unix_to_readable(1700000000), "2023-11-14 22:13:20 UTC");
    assert_eq!(unix_to_readable(4102444799), "2099-12-31 23:59:59 UTC");
    assert_eq!(unix_to_readable(253402300799), "9999-12-31 23:59:59 UTC");
}

#[test]
fn utc_fields_count_back_to_the_timestamp() {
    // The reading of a timestamp converts back to it (law: reads_as).
    let f = utc_fields(1700000000);
    assert_eq!((f.year, f.month, f.day, f.hour, f.minute, f.second), (2023, 11, 14, 22, 13, 20));
    let days_2023_before_nov = 31 + 28 + 31 + 30 + 31 + 30 + 31 + 31 + 30 + 31;
    let mut days: u64 = 0;
    for y in 1970..2023u64 {
        days += if (y % 4 == 0 && y % 100 != 0) || y % 400 == 0 { 366 } else { 365 };
    }
    days += days_2023_before_nov + 13;
    assert_eq!(days * 86400 + 22 * 3600 + 13 * 60 + 20, 1700000000);
}

#[test]
fn log_line_shape() {
    assert_eq!(log_line(0, "hi"), "[1970-01-01 00:00:00 UTC] hi\n");
}

#[test]
fn map_version_known_builds() {
    assert_eq!(map_version("1.0.127.4828"), "1.0.0");
    assert_eq!(map_version("1.0.130.16994"), "1.4.0");
    assert_eq!(map_version("1.0.138.16746"), "1.6.4");
}

#[test]
fn map_version_unknown_build() {
    assert_eq!(map_version("1.0.999.1"), "Unknown");
    assert_eq!(map_version(""), "Unknown");
}

#[test]
fn installer_xml_first_existing_candidate() {
    let c = installer_xml_candidates();
    assert_eq!(c[0], "__Installer/installerdata.xml");
    assert_eq!(find_installer_xml(&vec![false, true, true, false]), Some("_installer/installerdata.xml"));
    assert_eq!(find_installer_xml(&vec![true, false, false, true]), Some("__Installer/installerdata.xml"));
    assert_eq!(find_installer_xml(&vec![false, false, false, false]), None);
}

#[test]
fn parse_game_version_from_empty_element() {
    let xml = r#"<?xml version="1.0"?><DiPManifest><gameVersion version="1.0.138.16746"/></DiPManifest>"#;
    assert_eq!(parse_game_version(xml), Some("1.0.138.16746".to_string()));
}

#[test]
fn parse_game_version_needs_empty_element_and_attribute() {
    assert_eq!(parse_game_version(r#"<a><gameVersion version="1"></gameVersion></a>"#), None);
    assert_eq!(parse_game_version(r#"<a><gameVersion other="1"/></a>"#), None);
    assert_eq!(parse_game_version(""), None);
    assert_eq!(parse_game_version(r#"<a><gameVersion other="x" version="2.0"/></a>"#), Some("2.0".to_string()));
}

#[test]
fn game_versions_maps_build() {
    let xml = r#"<m><gameVersion version="1.0.128.4697"/></m>"#;
    assert_eq!(game_versions(xml), Ok(("1.0.128.4697".to_string(), "1.0.2".to_string())));
    assert_eq!(game_versions("<m/>"), Err("Version not found in XML".to_string()));
    assert_eq!(cfg_version("<m/>"), "Unknown");
    assert_eq!(missing_installer_message("D:\\FC"), "Cannot find installer XML in D:\\FC");
    assert_eq!(unreadable_installer_message("denied"), "Cannot read XML: denied");
}

#[test]
fn anadius_cfg_fills_in_values() {
    let cfg = anadius_cfg("1.2.3", "abcdef", "FMM");
    assert!(cfg.contains("\"Version\"               \"1.2.3\""));
    assert!(cfg.contains("\"DenuvoDllHash\"         \"abcdef\""));
    assert!(cfg.contains("\"LoadExtraDLLs\"         \"EAAC.dll\""));
    assert!(cfg.starts_with("\"Config2\"\n{"));
    assert!(cfg.ends_with("}\n}"));
    assert_eq!(config_dll("LE"), "FCLiveEditor.DLL");
    assert_eq!(config_dll("FMM"), "EAAC.dll");
}

#[test]
fn update_url_and_script() {
    assert_eq!(
        update_url("1.2.0"),
        "https://github.com/mabdelmoneam03/TecchnoAfandi-FC/releases/download/v1.2.0/TechnoAfandi-FC.exe"
    );
    assert_eq!(
        update_script("a.exe", "b.exe"),
        "@echo off\r\nping 127.0.0.1 -n 4 > NUL\r\ndel \"a.exe\"\r\nren \"b.exe\" \"a.exe\"\r\nstart \"\" \"a.exe\"\r\ndel \"%~f0\"\r\n"
    );
    assert_eq!(update_http_error("404 Not Found"), "Download failed: HTTP 404 Not Found");
}

#[test]
fn digests_in_lowercase_hex() {
    assert_eq!(sha256_hex(b"abc"), "ba7816bf8f01cfea414140de5dae2223b00361a396177a9cb410ff61f20015ad");
    assert_eq!(sha1_hex(b"abc"), "a9993e364706816aba3e25717850c26c9cd0d89d");
    assert_eq!(to_hex_lower(&[0x0a, 0x14, 0x1e, 0xff]), "0a141eff");
}

#[test]
fn map_version_follows_build_order() {
    let builds = [
        "1.0.127.4828", "1.0.127.59053", "1.0.128.4697", "1.0.128.17361", "1.0.128.29120",
        "1.0.128.37607", "1.0.128.60171", "1.0.128.63165", "1.0.129.1902", "1.0.129.4059",
        "1.0.129.25108", "1.0.129.30822", "1.0.130.16994", "1.0.130.35129", "1.0.131.24706",
        "1.0.131.50017", "1.0.132.29676", "1.0.133.14157", "1.0.133.58379", "1.0.134.1759",
        "1.0.134.63314", "1.0.135.39173", "1.0.135.54147", "1.0.136.4893", "1.0.136.44486",
        "1.0.136.57334", "1.0.137.49763", "1.0.138.16746",
    ];
    let key = |s: &str| -> Vec<u64> { s.split('.').map(|p| p.parse::<u64>().unwrap()).collect() };
    for w in builds.windows(2) {
        assert!(key(w[0]) < key(w[1]));
        let (a, b) = (map_version(w[0]), map_version(w[1]));
        assert_ne!(a, "Unknown");
        assert_ne!(b, "Unknown");
        assert!(key(a.as_str()) < key(b.as_str()), "{} -> {} is not before {} -> {}", w[0], a, w[1], b);
    }
    assert_eq!(map_version("1.0.129.1902"), "1.1.3");
    assert_eq!(map_version("1.0.137.49763"), "1.6.3");
}

#[test]
fn readable_time_keeps_time_order() {
    let moments = [0u64, 59, 60, 3599, 86399, 86400, 951782399, 951782400, 1700000000, 4102444799, 253402300799];
    for w in moments.windows(2) {
        assert!(unix_to_readable(w[0]) < unix_to_readable(w[1]));
    }
    assert_eq!(unix_to_readable(951782399), "2000-02-28 23:59:59 UTC");
}

#[test]
fn readable_time_reads_back_as_its_moment() {
    let t = unix_to_readable(1700000000);
    let f = utc_fields(1700000000);
    let text = format!(
        "{}-{:02}-{:02} {:02}:{:02}:{:02} UTC",
        f.year, f.month, f.day, f.hour, f.minute, f.second
    );
    assert_eq!(t, text);
    // Days from 1970-01-01 to 2023-11-14: 53 years with 13 leap days, then 317 days.
    let days: u64 = 53 * 365 + 13 + 317;
    assert_eq!(days * 86400 + 22 * 3600 + 13 * 60 + 20, 1700000000);
}

#[test]
fn readable_time_reads_back_after_year_ten_thousand() {
    assert_eq!(unix_to_readable(253402300800), "10000-01-01 00:00:00 UTC");
    assert_ne!(unix_to_readable(253402300800), unix_to_readable(253402300799));
}
