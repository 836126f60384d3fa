use tty_mood::replies::{
    boring_doctor, boring_status, format_uptime, spell_number, uptime_bureaucratic, uptime_drift,
    uptime_emergency, uptime_methodical,
};

#[test]
fn boring_status_works() {
    let output = boring_status();
    assert!(output.contains("operational"));
}

#[test]
fn boring_doctor_prescribes_generate() {
    assert_eq!(
        boring_doctor(),
        "DIAGNOSIS: No mood signature found.\nPRESCRIPTION: Run 'tty-mood generate' first.\nPROGNOSIS: Boring until remedied.\n"
    );
}

#[test]
fn numbers_in_words() {
    assert_eq!(spell_number(0), "zero");
    assert_eq!(spell_number(7), "seven");
    assert_eq!(spell_number(10), "ten");
    assert_eq!(spell_number(11), "many");
}

#[test]
fn uptime_units() {
    assert_eq!(format_uptime(59), "0 minutes");
    assert_eq!(format_uptime(3 * 3600 + 120), "3 hours, 2 minutes");
    assert_eq!(format_uptime(2 * 86400 + 3600 + 60), "2 days, 1 hours, 1 minutes");
}

#[test]
fn uptime_replies() {
    let rule = "─".repeat(30);
    assert_eq!(
        uptime_methodical("5 minutes"),
        format!("SYSTEM UPTIME REPORT\n{rule}\nCurrent uptime: 5 minutes\nStatus: NOMINAL\nLast reboot: LOGGED\n{rule}\nReport filed.\n")
    );
    assert!(uptime_bureaucratic("x").starts_with("FORM U-001: UPTIME DECLARATION\n"));
    assert!(uptime_bureaucratic("x").contains("System Uptime: x\n"));
    assert_eq!(uptime_drift("x"), "uptime: x\ntime passes...\n");
    assert_eq!(uptime_emergency("x"), "UPTIME: x\n[NOTED - MOVING ON]\n");
}
