use rusty_files::content::{content_for_extension, default_file_content};
use rusty_files::explorer::FileExplorer;
use rusty_files::names::{candidate_name, count_message, decimal, extension_start, find_last_dot, unique_name};
use rusty_files::path::FsPath;

fn strings(v: &[&str]) -> Vec<String> {
    v.iter().map(|s| s.to_string()).collect()
}

fn path(parts: &[&str]) -> FsPath {
    FsPath { comps: strings(parts) }
}

#[test]
fn decimal_text() {
    assert_eq!(decimal(0), "0");
    assert_eq!(decimal(7), "7");
    assert_eq!(decimal(1700000000), "1700000000");
    assert_eq!(decimal(u64::MAX), "18446744073709551615");
}

#[test]
fn count_message_text() {
    assert_eq!(count_message("Copied ", 3, " item(s)"), "Copied 3 item(s)");
}

#[test]
fn last_dot_and_extension_start() {
    assert_eq!(find_last_dot("a.tar.gz"), Some(5));
    assert_eq!(find_last_dot("Makefile"), None);
    assert_eq!(extension_start("a.tar.gz"), 5);
    assert_eq!(extension_start(".bashrc"), 7);
    assert_eq!(extension_start("README"), 6);
}

#[test]
fn candidate_names() {
    assert_eq!(candidate_name("a", ".txt", 1), "a (1).txt");
    assert_eq!(candidate_name("notes", "", 12), "notes (12)");
}

#[test]
fn unique_name_free_is_unchanged() {
    let taken = strings(&["b.txt"]);
    assert_eq!(unique_name(&"a.txt".to_string(), &taken), "a.txt");
}

#[test]
fn unique_name_counts_up() {
    let taken = strings(&["a.txt"]);
    assert_eq!(unique_name(&"a.txt".to_string(), &taken), "a (1).txt");
    let taken = strings(&["a.txt", "a (1).txt", "a (2).txt"]);
    assert_eq!(unique_name(&"a.txt".to_string(), &taken), "a (3).txt");
}

#[test]
fn unique_name_hidden_and_plain_names() {
    let taken = strings(&[".bashrc", "Makefile", "x.tar.gz"]);
    assert_eq!(unique_name(&".bashrc".to_string(), &taken), ".bashrc (1)");
    assert_eq!(unique_name(&"Makefile".to_string(), &taken), "Makefile (1)");
    assert_eq!(unique_name(&"x.tar.gz".to_string(), &taken), "x.tar (1).gz");
}

#[test]
fn unique_name_twice_then_after_creation() {
    let mut taken = strings(&["a.txt"]);
    let first = unique_name(&"a.txt".to_string(), &taken);
    let again = unique_name(&"a.txt".to_string(), &taken);
    assert_eq!(first, again);
    taken.push(first.clone());
    let after = unique_name(&"a.txt".to_string(), &taken);
    assert_ne!(after, first);
    assert_eq!(after, "a (2).txt");
}

#[test]
fn unique_path_in_directory() {
    let ex = FileExplorer::new(path(&["home"]), path(&["trash"]));
    let taken = strings(&["a.txt"]);
    let r = ex.get_unique_path(&path(&["home", "a.txt"]), &taken);
    assert_eq!(r.comps, strings(&["home", "a (1).txt"]));
    let r = ex.get_unique_path(&path(&["home", "c.txt"]), &taken);
    assert_eq!(r.comps, strings(&["home", "c.txt"]));
}

#[test]
fn default_contents() {
    assert_eq!(default_file_content("script.py"), "#!/usr/bin/env python3\n");
    assert_eq!(default_file_content("RUN.SH"), "#!/bin/bash\n");
    assert_eq!(default_file_content("main.rs"), "fn main() {\n    \n}\n");
    assert_eq!(default_file_content("Makefile"), "\n");
    assert_eq!(default_file_content(".bashrc"), "\n");
    assert_eq!(default_file_content("notes.MD"), "# \n");
    assert_eq!(FileExplorer::get_default_file_content("app.Go"), "package main\n\nfunc main() {\n    \n}\n");
}

#[test]
fn content_for_lowercase_extension() {
    assert_eq!(content_for_extension(&"css".to_string()), "/* */\n");
    assert_eq!(content_for_extension(&"CSS".to_string()), "\n");
    assert_eq!(content_for_extension(&"hpp".to_string()), "// \n");
}
