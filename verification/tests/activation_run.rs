use technoafandi::activation::{
    job_file, job_in_temp, job_label, job_percentages, job_url, note_text, report_success,
    report_text, selects_fmm, stage_label, step, Effect, Job, Note, Outcome, Phase, Report, Stage,
    FMM_ZIP_RAW, LE_ZIP_RAW,
};
use technoafandi::files::{
    already_present, archive_entries, has_ticket, hash_prefix, is_game_folder, is_lfs_pointer, is_part_file,
    is_ticket_name, validate_exe, validate_zip, BAD_ZIP,
};
use technoafandi::locate::{diagnostic_entries, drive_roots, has_part_files, should_descend, sort_names, text_le, SearchQueue};
use std::io::Write;
use technoafandi::watch::{fallback_polls, watch_goes_on, watch_label, watch_signal, WatchSignal, WatchVerdict};

fn ok() -> Outcome {
    Outcome::Completed
}

/// Drives a run with the given outcomes and returns every effect in order.
fn run(outcomes: Vec<Outcome>) -> (Phase, Vec<Effect>) {
    let mut phase = Phase::Begin;
    let mut all = Vec::new();
    let (p, es) = step(phase, Outcome::Completed);
    phase = p;
    all.extend(es);
    for o in outcomes {
        if phase == Phase::Finished {
            break;
        }
        let (p, es) = step(phase, o);
        phase = p;
        all.extend(es);
    }
    (phase, all)
}

fn reports(es: &[Effect]) -> Vec<&Report> {
    es.iter().filter_map(|e| if let Effect::Done(r) = e { Some(r) } else { None }).collect()
}

fn percents(es: &[Effect]) -> Vec<u64> {
    es.iter()
        .filter_map(|e| match e {
            Effect::Progress(p, _) => Some(*p),
            _ => None,
        })
        .collect()
}

#[test]
fn run_succeeds_without_ticket() {
    // downloads 1-3, exe check, download 4, archive, archive check,
    // extract, config, launch, poll (running), watch (no ticket).
    let (phase, es) = run(vec![ok(), ok(), ok(), ok(), ok(), ok(), ok(), ok(), ok(), ok(), Outcome::Running, Outcome::Ticket(false)]);
    assert_eq!(phase, Phase::Finished);
    let r = reports(&es);
    assert_eq!(r.len(), 1);
    assert!(matches!(r[0], Report::Success));
    let p = percents(&es);
    assert!(p.windows(2).all(|w| w[0] <= w[1]));
    assert_eq!(*p.last().unwrap(), 100);
}

#[test]
fn run_with_ticket_runs_activator_and_restores_dlls() {
    let mut outs = (0..10).map(|_| ok()).collect::<Vec<Outcome>>();
    outs.push(Outcome::Running);
    outs.push(Outcome::Ticket(true));
    outs.push(ok()); // temp file
    outs.push(ok()); // write activator
    outs.push(ok()); // run activator
    outs.push(ok()); // activator exits successfully
    outs.push(ok()); // relaunch
    outs.push(Outcome::Exited(None)); // not yet running
    outs.push(Outcome::Running);
    outs.push(Outcome::Ticket(false));
    let (phase, es) = run(outs);
    assert_eq!(phase, Phase::Finished);
    let hide = es.iter().position(|e| matches!(e, Effect::HideDlls)).unwrap();
    let restore = es.iter().position(|e| matches!(e, Effect::RestoreDlls)).unwrap();
    assert!(hide < restore);
    assert!(matches!(reports(&es)[0], Report::Success));
    assert!(matches!(es[es.len() - 2], Effect::RemoveLog));
}

#[test]
fn run_fails_when_ticket_remains() {
    let mut outs = (0..10).map(|_| ok()).collect::<Vec<Outcome>>();
    outs.extend(vec![Outcome::Running, Outcome::Ticket(true), ok(), ok(), ok(), ok(), ok(), Outcome::Running, Outcome::Ticket(true)]);
    let (_, es) = run(outs);
    assert!(matches!(reports(&es)[0], Report::TicketsRemain));
    assert_eq!(
        report_text(reports(&es)[0], "FMM"),
        "\u{0641}\u{0634}\u{0644} \u{0627}\u{0644}\u{062a}\u{0641}\u{0639}\u{064a}\u{0644} - Activation Failed\nTicket files still present after activation"
    );
}

#[test]
fn rerun_gives_up_after_ten_polls() {
    let mut outs = (0..10).map(|_| ok()).collect::<Vec<Outcome>>();
    outs.extend(vec![Outcome::Running, Outcome::Ticket(true), ok(), ok(), ok(), ok(), ok()]);
    for _ in 0..10 {
        outs.push(Outcome::Exited(Some(1)));
    }
    let (phase, es) = run(outs);
    assert_eq!(phase, Phase::Finished);
    assert!(matches!(reports(&es)[0], Report::RelaunchDidNotStart));
    assert_eq!(es.iter().filter(|e| matches!(e, Effect::PollGame)).count(), 11);
}

#[test]
fn download_failure_is_logged_and_reported() {
    let (phase, es) = run(vec![ok(), Outcome::Failed("timeout".to_string())]);
    assert_eq!(phase, Phase::Finished);
    let r = reports(&es)[0];
    assert_eq!(report_text(r, "FMM"), "Failed to download CryptBase0.dll: timeout");
    assert!(!report_success(r));
    let n = es.iter().rev().find_map(|e| if let Effect::Log(n) = e { Some(n) } else { None }).unwrap();
    assert_eq!(note_text(n, "FMM"), "ERROR: Failed CryptBase0.dll: timeout");
}

#[test]
fn activator_failure_restores_dlls_first() {
    let mut outs = (0..10).map(|_| ok()).collect::<Vec<Outcome>>();
    outs.extend(vec![Outcome::Running, Outcome::Ticket(true), ok(), ok(), ok(), Outcome::Exited(Some(-5))]);
    let (_, es) = run(outs);
    let n = es.len();
    assert!(matches!(es[n - 3], Effect::RestoreDlls));
    assert!(matches!(es[n - 2], Effect::RemoveActivator));
    assert_eq!(report_text(reports(&es)[0], "LE"), "Activator failed (exit code: Some(-5))");
}

#[test]
fn first_launch_exit_reported() {
    let mut outs = (0..10).map(|_| ok()).collect::<Vec<Outcome>>();
    outs.push(Outcome::Exited(None));
    let (_, es) = run(outs);
    assert_eq!(report_text(reports(&es)[0], "LE"), "FC26.exe exited immediately (code: None)");
}

#[test]
fn archive_messages_use_selection() {
    assert_eq!(report_text(&Report::ArchiveInvalid("bad".to_string()), "FMM"), "FMM archive invalid: bad");
    assert_eq!(report_text(&Report::ExtractFailed("x".to_string()), "LE"), "Failed to extract LE: x");
    assert_eq!(report_text(&Report::DownloadFailed(Job::Archive, "e".to_string()), "LE"), "Failed to download LE: e");
    assert_eq!(note_text(&Note::StartingDownload(Job::Archive), "FMM"), "Starting download: FMM archive");
    assert_eq!(note_text(&Note::DownloadFailed(Job::Archive, "e".to_string()), "FMM"), "ERROR: Failed archive: e");
    assert_eq!(note_text(&Note::Started, "FMM"), "--- NEW ACTIVATION STARTED: FMM ---");
    assert_eq!(stage_label(Stage::Extracting, "FMM"), "Extracting FMM");
    assert_eq!(stage_label(Stage::PackageReady, "LE"), "LE ready");
    assert_eq!(stage_label(Stage::CheckingTickets, "LE"), "Game loaded \u{2014} checking for Denuvo tickets...");
}

#[test]
fn jobs_table() {
    assert!(selects_fmm("FMM"));
    assert!(!selects_fmm("LE"));
    assert_eq!(job_url(Job::Archive, true), FMM_ZIP_RAW);
    assert_eq!(job_url(Job::Archive, false), LE_ZIP_RAW);
    assert_eq!(job_file(Job::Archive, false), "Live_Editor.zip");
    assert_eq!(job_file(Job::Activation64, false), "FAKE/Activation64.dll");
    assert!(job_in_temp(Job::Archive));
    assert!(!job_in_temp(Job::Game));
    assert_eq!(job_percentages(Job::Game), (10, 30));
    assert_eq!(job_label(Job::Archive, "FMM"), "FMM");
    assert_eq!(job_label(Job::Anadius, "FMM"), "anadius64.dll");
}

#[test]
fn lfs_pointer_detection() {
    assert!(is_lfs_pointer(130, "version https://git-lfs.github.com/spec/v1\noid sha256:abc\n"));
    assert!(is_lfs_pointer(20, "oid sha256:abc"));
    assert!(!is_lfs_pointer(2000, "version https://git-lfs.github.com/spec/v1"));
    assert!(!is_lfs_pointer(10, "hello"));
}

#[test]
fn presence_of_downloaded_file() {
    assert!(!already_present(None, Some(5)));
    assert!(!already_present(Some(0), None));
    assert!(!already_present(Some(4), Some(5)));
    assert!(already_present(Some(5), Some(5)));
    assert!(already_present(Some(5), None));
    assert_eq!(hash_prefix("0123456789abcdef"), "0123456789ab");
    assert_eq!(hash_prefix("unknown"), "unknown");
}

#[test]
fn exe_validation() {
    let small = validate_exe(100, "", (0, 0)).unwrap_err();
    assert!(small.ends_with("File is suspiciously small (100 bytes) \u{2014} download likely failed"));
    let lfs = validate_exe(130, "oid sha256:1", (0, 0)).unwrap_err();
    assert!(lfs.contains("The file is a Git LFS pointer, not the actual binary (only 130 bytes)."));
    let pe = validate_exe(1000, "", (0x50, 0x4B)).unwrap_err();
    assert!(pe.ends_with("\nFile is not a valid Windows executable (missing MZ signature). Size: 1000 bytes."));
    assert_eq!(validate_exe(1000, "", (0x4D, 0x5A)), Ok(()));
}

#[test]
fn zip_validation() {
    let small = validate_zip(&[0u8; 50]).unwrap_err();
    assert!(small.ends_with("/ ZIP file too small (50 bytes)"));
    let bad = validate_zip(&[7u8; 200]).unwrap_err();
    assert!(bad.starts_with(BAD_ZIP));
    assert!(bad.len() > BAD_ZIP.len());
    let mut buf = std::io::Cursor::new(Vec::new());
    {
        let mut w = zip::ZipWriter::new(&mut buf);
        let opts = zip::write::SimpleFileOptions::default().compression_method(zip::CompressionMethod::Stored);
        w.start_file("readme.txt", opts).unwrap();
        w.write_all(&[b'x'; 200]).unwrap();
        w.finish().unwrap();
    }
    assert_eq!(validate_zip(buf.get_ref()), Ok(()));
}

#[test]
fn ticket_and_part_names() {
    assert!(is_ticket_name("Denuvo_ticket_123.bin"));
    assert!(!is_ticket_name("denuvo_ticket"));
    assert!(has_ticket(&vec!["a".to_string(), "Denuvo_ticket".to_string()]));
    assert!(!has_ticket(&vec!["a".to_string()]));
    assert!(is_part_file(".dl_part_FC26.exe_0"));
    assert!(!is_part_file("dl_part"));
    assert!(has_part_files(&vec!["x".to_string(), ".dl_part_a_1".to_string()]));
    assert!(!has_part_files(&vec![]));
    assert!(is_game_folder(true, true));
    assert!(!is_game_folder(true, false));
}

#[test]
fn watch_signals() {
    let ev = WatchSignal::Event { create_or_modify: true, names: vec!["x".to_string(), "Denuvo_ticket_1".to_string()] };
    assert_eq!(watch_signal(&ev), WatchVerdict::Found);
    let other = WatchSignal::Event { create_or_modify: false, names: vec!["Denuvo_ticket_1".to_string()] };
    assert_eq!(watch_signal(&other), WatchVerdict::KeepWatching);
    assert_eq!(watch_signal(&WatchSignal::WatchError), WatchVerdict::KeepWatching);
    assert_eq!(watch_signal(&WatchSignal::Timeout { ticket_present: true }), WatchVerdict::Found);
    assert_eq!(watch_signal(&WatchSignal::Timeout { ticket_present: false }), WatchVerdict::KeepWatching);
    assert_eq!(watch_signal(&WatchSignal::Disconnected { ticket_present: false }), WatchVerdict::NotFound);
    assert!(watch_goes_on(false, false));
    assert!(!watch_goes_on(true, false));
    assert!(!watch_goes_on(false, true));
    assert_eq!(fallback_polls(30), 150);
    assert_eq!(watch_label(65, 3600), "Game loaded \u{2014} checking for Denuvo tickets... [01:05/01:00:00]");
}

#[test]
fn search_skips_system_folders() {
    assert!(!should_descend("Windows"));
    assert!(!should_descend("$Recycle.Bin"));
    assert!(!should_descend("System Volume Information"));
    assert!(should_descend("Games"));
    let roots = drive_roots();
    assert_eq!(roots.len(), 24);
    assert_eq!(roots[0], "C:\\");
    assert_eq!(roots[23], "Z:\\");
}

#[test]
fn search_is_first_in_first_out() {
    let mut q = SearchQueue::new("C:\\".to_string());
    assert_eq!(q.next(), Some("C:\\".to_string()));
    q.enqueue_subfolders(vec![
        ("Games".to_string(), "C:\\Games".to_string()),
        ("Windows".to_string(), "C:\\Windows".to_string()),
        ("EA".to_string(), "C:\\EA".to_string()),
    ]);
    q.enqueue_subfolders(vec![("FC".to_string(), "C:\\Games\\FC".to_string())]);
    assert_eq!(q.next(), Some("C:\\Games".to_string()));
    assert_eq!(q.next(), Some("C:\\EA".to_string()));
    assert_eq!(q.next(), Some("C:\\Games\\FC".to_string()));
    assert_eq!(q.next(), None);
}

#[test]
fn diagnostics_sorted_and_capped() {
    let names: Vec<String> = (0..60).rev().map(|i| format!("n{:02}", i)).collect();
    let shown = diagnostic_entries(&names);
    assert_eq!(shown.len(), 50);
    assert_eq!(shown[0], "n00");
    assert_eq!(shown[49], "n49");
    let s = sort_names(&vec!["b".to_string(), "B".to_string(), "a".to_string(), "\u{e9}".to_string(), "ab".to_string()]);
    assert_eq!(s, vec!["B", "a", "ab", "b", "\u{e9}"]);
    let mut std_sorted = vec!["b".to_string(), "B".to_string(), "a".to_string(), "\u{e9}".to_string(), "ab".to_string()];
    std_sorted.sort();
    assert_eq!(s, std_sorted);
    assert!(text_le("a", "ab"));
    assert!(!text_le("b", "ab"));
}

fn small_archive() -> Vec<u8> {
    let opts = zip::write::SimpleFileOptions::default().compression_method(zip::CompressionMethod::Stored);
    let mut w = zip::ZipWriter::new(std::io::Cursor::new(Vec::new()));
    w.add_directory("bin/", opts).unwrap();
    w.start_file("bin/a.dll", opts).unwrap();
    w.write_all(b"hello").unwrap();
    w.start_file("readme.txt", opts).unwrap();
    w.write_all(b"FMM").unwrap();
    w.finish().unwrap().into_inner()
}

#[test]
fn archive_entries_in_order() {
    let entries = archive_entries(&small_archive()).unwrap();
    assert_eq!(entries.len(), 3);
    assert_eq!(entries[0].0, "bin/");
    assert!(entries[0].1);
    assert_eq!(entries[1], ("bin/a.dll".to_string(), false, b"hello".to_vec()));
    assert_eq!(entries[2], ("readme.txt".to_string(), false, b"FMM".to_vec()));
}

#[test]
fn archive_entries_of_broken_archive() {
    let mut junk = vec![0u8; 200];
    junk[0] = b'P';
    assert!(archive_entries(&junk).is_err());
    assert!(validate_zip(&junk).is_err());
    assert!(validate_zip(&small_archive()).is_ok());
}
