use gli_editor::backup::{is_backup, BackupEntry, BackupManager};

fn entry(name: &str, modified: u128) -> BackupEntry {
    BackupEntry { name: name.to_string(), modified }
}

#[test]
fn backup_names() {
    let m = BackupManager::new();
    assert_eq!(m.max_backups(), 5);
    assert_eq!(m.backup_file_name(".gitleaksignore", 1700000000), ".gitleaksignore.backup.1700000000");
    assert_eq!(m.backup_file_name("x.txt", 0), "x.txt.backup.0");
    assert_eq!(BackupManager::default().max_backups(), 5);
}

#[test]
fn backup_recognition() {
    assert!(is_backup(".gitleaksignore.backup.12", ".gitleaksignore"));
    assert!(!is_backup(".gitleaksignore", ".gitleaksignore"));
    assert!(!is_backup("other.backup.12", ".gitleaksignore"));
}

#[test]
fn keeps_only_the_newest_backups() {
    let m = BackupManager::new();
    let mut entries = vec![entry(".gitleaksignore", 999), entry("unrelated.txt", 1)];
    for t in 1..=8u128 {
        entries.push(entry(&format!(".gitleaksignore.backup.{}", t), t * 10));
    }
    let mut removed = m.cleanup_old_backups(".gitleaksignore", &entries);
    removed.sort();
    let names: Vec<&str> = removed.iter().map(|&i| entries[i].name.as_str()).collect();
    assert_eq!(names, vec![".gitleaksignore.backup.1", ".gitleaksignore.backup.2", ".gitleaksignore.backup.3"]);
}

#[test]
fn nothing_to_prune_under_the_limit() {
    let m = BackupManager::new();
    let entries = vec![entry("f.backup.1", 1), entry("f.backup.2", 2), entry("f", 3)];
    assert!(m.cleanup_old_backups("f", &entries).is_empty());
}

#[test]
fn retention_over_repeated_saves() {
    let m = BackupManager::new();
    let mut dir: Vec<BackupEntry> = vec![entry("f", 0)];
    for t in 1..=12u128 {
        dir.push(entry(&format!("f.backup.{}", t), t));
        let removed = m.cleanup_old_backups("f", &dir);
        let mut keep = Vec::new();
        for (i, e) in dir.iter().enumerate() {
            if !removed.contains(&i) {
                keep.push(e.clone());
            }
        }
        dir = keep;
    }
    let mut left: Vec<u128> = dir.iter().filter(|e| e.name != "f").map(|e| e.modified).collect();
    left.sort();
    assert_eq!(left, vec![8, 9, 10, 11, 12]);
}

#[test]
fn unordered_listing_prunes_by_time() {
    let m = BackupManager::new();
    let entries = vec![
        entry("f.backup.c", 30),
        entry("f.backup.a", 10),
        entry("f.backup.f", 60),
        entry("f.backup.b", 20),
        entry("f.backup.e", 50),
        entry("f.backup.d", 40),
        entry("f.backup.g", 70),
    ];
    let mut removed = m.cleanup_old_backups("f", &entries);
    removed.sort();
    assert_eq!(removed, vec![1, 3]);
}
