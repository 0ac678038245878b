use process_lookup::lookup::{Action, Event, Lookup, LookupError, Phase, ProcessEntry};
use process_lookup::name::{entry_matches, matches_decoded, trim_terminators};

const NAME_CAPACITY: usize = 260;

fn entry(pid: u32, name: &str) -> ProcessEntry {
    let mut exe_file: Vec<u16> = name.encode_utf16().collect();
    exe_file.resize(NAME_CAPACITY, 0);
    ProcessEntry { pid, exe_file }
}

fn table() -> Vec<ProcessEntry> {
    vec![
        entry(0, "[System Process]"),
        entry(4, "System"),
        entry(612, "smss.exe"),
        entry(1980, "explorer.exe"),
        entry(4242, "harness.exe"),
        entry(5120, "notepad.exe"),
    ]
}

/// Runs one lookup the way a caller does: performs each action against a
/// table held in memory and reports how it went. Returns the result and how
/// many times the snapshot was released.
fn drive(
    wanted: &str,
    open: Result<(), i32>,
    first: Result<(), i32>,
    entries: &[ProcessEntry],
) -> (Result<Option<u32>, LookupError>, usize) {
    let mut lookup = Lookup::new(wanted);
    let mut releases = 0;
    let mut next = 0;
    let mut event = match open {
        Ok(()) => Event::Opened,
        Err(code) => Event::OpenFailed(code),
    };
    loop {
        assert!(lookup.accepts(&event));
        match lookup.step(event) {
            Action::FetchFirst => {
                event = match first {
                    Err(code) => Event::FetchFailed(code),
                    Ok(()) if entries.is_empty() => Event::FetchFailed(18),
                    Ok(()) => {
                        next = 1;
                        Event::Fetched(entries[0].clone())
                    }
                };
            }
            Action::FetchNext => {
                event = if next < entries.len() {
                    next += 1;
                    Event::Fetched(entries[next - 1].clone())
                } else {
                    Event::FetchFailed(18)
                };
            }
            Action::Finish { release, result } => {
                if release {
                    releases += 1;
                }
                assert_eq!(lookup.phase(), Phase::Done);
                return (result, releases);
            }
        }
    }
}

#[test]
fn unknown_name_is_not_found() {
    let (r, released) = drive("definitely_not_a_running_process.exe", Ok(()), Ok(()), &table());
    assert_eq!(r, Ok(None));
    assert_eq!(released, 1);
}

#[test]
fn own_name_gives_own_pid() {
    let (r, released) = drive("harness.exe", Ok(()), Ok(()), &table());
    assert_eq!(r, Ok(Some(4242)));
    assert_eq!(released, 1);
}

#[test]
fn repeated_lookups_agree() {
    let a = drive("explorer.exe", Ok(()), Ok(()), &table());
    let b = drive("explorer.exe", Ok(()), Ok(()), &table());
    assert_eq!(a, b);
    assert_eq!(a.0, Ok(Some(1980)));
    let mut grown = table();
    grown.push(entry(7000, "explorer.exe"));
    grown.push(entry(7001, "late.exe"));
    assert_eq!(drive("explorer.exe", Ok(()), Ok(()), &grown).0, Ok(Some(1980)));
}

#[test]
fn partial_name_never_matches() {
    for wanted in ["notepad", "note", "pad.exe", "otepad.ex", "Notepad.exe", "NOTEPAD.EXE", ""] {
        let (r, released) = drive(wanted, Ok(()), Ok(()), &table());
        assert_eq!(r, Ok(None), "{}", wanted);
        assert_eq!(released, 1);
    }
    assert_eq!(drive("notepad.exe", Ok(()), Ok(()), &table()).0, Ok(Some(5120)));
}

#[test]
fn first_of_two_with_one_name_wins() {
    let entries = vec![
        entry(4, "System"),
        entry(300, "child.exe"),
        entry(301, "other.exe"),
        entry(302, "child.exe"),
    ];
    assert_eq!(drive("child.exe", Ok(()), Ok(()), &entries).0, Ok(Some(300)));
    let swapped = vec![entry(302, "child.exe"), entry(300, "child.exe")];
    assert_eq!(drive("child.exe", Ok(()), Ok(()), &swapped).0, Ok(Some(302)));
}

#[test]
fn snapshot_denied() {
    let (r, released) = drive("harness.exe", Err(5), Ok(()), &table());
    assert_eq!(r, Err(LookupError::SnapshotCreationFailure(5)));
    assert_eq!(released, 0);
}

#[test]
fn first_entry_failure_is_reported() {
    let (r, released) = drive("harness.exe", Ok(()), Err(18), &table());
    assert_eq!(r, Err(LookupError::FirstEntryRetrievalFailure(18)));
    assert_eq!(released, 1);
}

#[test]
fn match_in_first_entry() {
    let (r, released) = drive("[System Process]", Ok(()), Ok(()), &table());
    assert_eq!(r, Ok(Some(0)));
    assert_eq!(released, 1);
}

#[test]
fn match_in_last_entry_then_end() {
    let entries = vec![entry(1, "a.exe"), entry(2, "b.exe")];
    assert_eq!(drive("b.exe", Ok(()), Ok(()), &entries).0, Ok(Some(2)));
    assert_eq!(drive("c.exe", Ok(()), Ok(()), &entries).0, Ok(None));
}

#[test]
fn leak_free_over_many_lookups() {
    let mut released = 0;
    let mut opened = 0;
    for i in 0..50 {
        let open = if i % 7 == 0 { Err(5) } else { Ok(()) };
        let first = if i % 11 == 0 { Err(18) } else { Ok(()) };
        let wanted = if i % 2 == 0 { "smss.exe" } else { "missing.exe" };
        if open.is_ok() {
            opened += 1;
        }
        released += drive(wanted, open, first, &table()).1;
    }
    assert_eq!(released, opened);
}

#[test]
fn step_sequence_is_exact() {
    let mut lookup = Lookup::new("b.exe");
    assert_eq!(lookup.phase(), Phase::Opening);
    assert!(lookup.accepts(&Event::Opened));
    assert!(!lookup.accepts(&Event::FetchFailed(1)));
    assert_eq!(lookup.step(Event::Opened), Action::FetchFirst);
    assert_eq!(lookup.phase(), Phase::AwaitingFirst);
    assert!(!lookup.accepts(&Event::Opened));
    assert_eq!(lookup.step(Event::Fetched(entry(1, "a.exe"))), Action::FetchNext);
    assert_eq!(lookup.phase(), Phase::Scanning);
    assert_eq!(
        lookup.step(Event::FetchFailed(259)),
        Action::Finish { release: true, result: Ok(None) }
    );
    assert_eq!(lookup.phase(), Phase::Done);
    assert!(!lookup.accepts(&Event::Opened));
    assert!(!lookup.accepts(&Event::Fetched(entry(1, "b.exe"))));
}

#[test]
fn trailing_nuls_are_trimmed() {
    assert_eq!(trim_terminators("abc.exe\0\0\0"), "abc.exe");
    assert_eq!(trim_terminators("abc.exe"), "abc.exe");
    assert_eq!(trim_terminators("\0\0"), "");
    assert_eq!(trim_terminators(""), "");
    assert_eq!(trim_terminators("a\0b\0"), "a\0b");
    assert_eq!(trim_terminators("\0a"), "\0a");
    assert_eq!(trim_terminators("é\u{1F600}\0"), "é\u{1F600}");
}

#[test]
fn decoded_names_compare_exactly() {
    assert!(matches_decoded("abc.exe\0\0", "abc.exe"));
    assert!(matches_decoded("abc.exe", "abc.exe"));
    assert!(!matches_decoded("abc.exe\0", "abc.ex"));
    assert!(!matches_decoded("abc.exe\0", "ABC.exe"));
    assert!(!matches_decoded("abc.exe", "abc.exe\0"));
    assert!(matches_decoded("\0\0", ""));
    assert!(!matches_decoded("a\0b", "a"));
}

#[test]
fn entry_buffers_are_decoded() {
    assert!(entry_matches(&entry(1, "abc.exe").exe_file, "abc.exe"));
    assert!(!entry_matches(&entry(1, "abc.exe").exe_file, "abc"));
    assert!(entry_matches(&entry(1, "d\u{e9}j\u{e0}.exe").exe_file, "déjà.exe"));
    assert!(entry_matches(&entry(1, "\u{1F600}.exe").exe_file, "\u{1F600}.exe"));
    let mut unpaired: Vec<u16> = vec![0xD800, 0x61];
    unpaired.resize(NAME_CAPACITY, 0);
    assert!(entry_matches(&unpaired, "\u{FFFD}a"));
    assert!(entry_matches(&[0u16; NAME_CAPACITY], ""));
    assert!(!entry_matches(&[0x61u16, 0x62], "a"));
}
