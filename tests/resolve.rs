use boxedmino::resolve::{arch_of, get_path_score, pick_files_to_move, Arch, ArchiveEntry};
use boxedmino::text::contains_text;

fn entry(path: &str) -> ArchiveEntry {
    let name = path.rsplit('/').next().unwrap().to_string();
    ArchiveEntry { name, path: path.to_string() }
}

#[test]
fn scores_on_64_bit_x86() {
    assert_eq!(get_path_score("lib/Windows/x64/cc.dll", Arch::X86_64), 1);
    assert_eq!(get_path_score("lib/linux/x86_64/cc.so", Arch::X86_64), 1);
    assert_eq!(get_path_score("lib/Windows/x86/cc.dll", Arch::X86_64), -1);
    assert_eq!(get_path_score("lib/i686/cc.so", Arch::X86_64), -1);
    assert_eq!(get_path_score("lib/cc.dll", Arch::X86_64), 0);
}

#[test]
fn scores_on_32_bit_x86() {
    assert_eq!(get_path_score("lib/x86/cc.dll", Arch::X86), 1);
    assert_eq!(get_path_score("lib/x86_64/cc.dll", Arch::X86), -1);
    assert_eq!(get_path_score("lib/amd64/cc.dll", Arch::X86), -1);
    assert_eq!(get_path_score("lib/cc.dll", Arch::X86), 0);
}

#[test]
fn scores_on_arm() {
    assert_eq!(get_path_score("lib/arm64-v8a/libcc.so", Arch::Aarch64), 1);
    assert_eq!(get_path_score("lib/armeabi-v7a/libcc.so", Arch::Aarch64), -1);
    assert_eq!(get_path_score("lib/armeabi-v7a/libcc.so", Arch::Arm), 1);
    assert_eq!(get_path_score("lib/aarch64/libcc.so", Arch::Arm), -1);
    assert_eq!(get_path_score("lib/x64/cc.dll", Arch::Other), 0);
}

#[test]
fn substring_search() {
    let h: Vec<char> = "abcabd".chars().collect();
    assert!(contains_text(&h, "abd"));
    assert!(contains_text(&h, ""));
    assert!(!contains_text(&h, "abe"));
    assert!(!contains_text(&h, "abcabda"));
}

#[test]
fn highest_score_wins_each_name() {
    let entries = vec![
        entry("Windows/x86/cold_clear.dll"),
        entry("Windows/x64/cold_clear.dll"),
        entry("Windows/readme.txt"),
        entry("Windows/x86/CCloader.dll"),
    ];
    let picked = pick_files_to_move(&entries, Arch::X86_64);
    assert_eq!(
        picked,
        vec![
            "Windows/x64/cold_clear.dll".to_string(),
            "Windows/readme.txt".to_string(),
            "Windows/x86/CCloader.dll".to_string(),
        ]
    );
}

#[test]
fn equal_scores_keep_the_first() {
    let entries = vec![
        entry("a/lib.so"),
        entry("b/lib.so"),
        entry("c/x64/lib.so"),
        entry("d/amd64/lib.so"),
    ];
    assert_eq!(pick_files_to_move(&entries, Arch::X86_64), vec!["c/x64/lib.so".to_string()]);
    assert_eq!(pick_files_to_move(&entries, Arch::Other), vec!["a/lib.so".to_string()]);
}

#[test]
fn one_file_per_name_with_the_top_score() {
    let paths = [
        "x86/a.dll", "x64/a.dll", "b.dll", "i386/b.dll", "amd64/c.dll", "c.dll", "x86_64/a.dll",
    ];
    let entries: Vec<ArchiveEntry> = paths.iter().map(|p| entry(p)).collect();
    for arch in [Arch::X86_64, Arch::X86, Arch::Aarch64, Arch::Arm, Arch::Other] {
        let picked = pick_files_to_move(&entries, arch);
        let mut names: Vec<String> = Vec::new();
        for p in &picked {
            let e = entries.iter().find(|e| &e.path == p).unwrap();
            assert!(!names.contains(&e.name));
            names.push(e.name.clone());
            let best = entries
                .iter()
                .filter(|o| o.name == e.name)
                .map(|o| get_path_score(&o.path, arch))
                .max()
                .unwrap();
            assert_eq!(get_path_score(&e.path, arch), best);
            let first_best = entries
                .iter()
                .find(|o| o.name == e.name && get_path_score(&o.path, arch) == best)
                .unwrap();
            assert_eq!(&first_best.path, p);
        }
        assert_eq!(names.len(), 3);
    }
}

#[test]
fn nothing_to_pick_from_an_empty_tree() {
    assert!(pick_files_to_move(&Vec::new(), Arch::X86_64).is_empty());
}

#[test]
fn architecture_names() {
    assert_eq!(arch_of("x86_64"), Arch::X86_64);
    assert_eq!(arch_of("x86"), Arch::X86);
    assert_eq!(arch_of("aarch64"), Arch::Aarch64);
    assert_eq!(arch_of("arm"), Arch::Arm);
    assert_eq!(arch_of("riscv64"), Arch::Other);
}
