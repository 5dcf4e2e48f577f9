use parentguard::{lignes_de, nom_pour_killall, noms_processus_bruts, noms_processus_csv};

#[test]
fn lignes_decoupees() {
    assert_eq!(lignes_de("a\nb\n"), vec!["a".to_string(), "b".to_string()]);
    assert_eq!(lignes_de("a\n\nb"), vec!["a".to_string(), String::new(), "b".to_string()]);
    assert_eq!(lignes_de("x\r\n"), vec!["x\r".to_string()]);
    assert!(lignes_de("").is_empty());
}

#[test]
fn liste_csv() {
    let sortie = "\"System Idle Process\",\"0\",\"Services\",\"0\",\"8 K\"\r\n\"Fortnite.EXE\",\"4242\",\"Console\",\"1\",\"1 024 K\"\r\n";
    assert_eq!(
        noms_processus_csv(sortie),
        vec!["system idle process".to_string(), "fortnite.exe".to_string()]
    );
    assert_eq!(noms_processus_csv("\"\"A\"\"B\"\""), vec!["a\"\"b".to_string()]);
}

#[test]
fn liste_brute() {
    let sortie = "  /sbin/launchd\n/Applications/Roblox.app/Contents/MacOS/RobloxPlayer  \n";
    assert_eq!(
        noms_processus_bruts(sortie),
        vec!["/sbin/launchd".to_string(), "/applications/roblox.app/contents/macos/robloxplayer".to_string()]
    );
}

#[test]
fn liste_csv_retours_chariot() {
    assert_eq!(noms_processus_csv("Idle\r\nB\r"), vec!["idle".to_string(), "b\r".to_string()]);
    assert_eq!(noms_processus_csv("A\r\r\n"), vec!["a\r".to_string()]);
    assert_eq!(noms_processus_csv("X\r\n"), vec!["x".to_string()]);
}

#[test]
fn nom_killall() {
    assert_eq!(nom_pour_killall("roblox.exe"), "roblox");
    assert_eq!(nom_pour_killall("Roblox.app"), "Roblox");
    assert_eq!(nom_pour_killall("a.exe.exe"), "a");
    assert_eq!(nom_pour_killall("a.app.exe"), "a");
    assert_eq!(nom_pour_killall("a.exe.app"), "a.exe");
    assert_eq!(nom_pour_killall("steam"), "steam");
    assert_eq!(nom_pour_killall(".exe"), "");
}
