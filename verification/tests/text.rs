//! Texts, paths, errors and counters.

use std::hash::{Hash, Hasher};

use filecopier::engine::orchestrator::generate_job_id;
use filecopier::error::CoreError;
use filecopier::os_ops::{NoOpOsOps, OsOps};
use filecopier::path::{is_partial_name, PathStyle};
use filecopier::telemetry::TelemetrySink;
use filecopier::text::{
    eq_ignore_ascii_case, format_bytes, format_decimal, format_duration, format_hex,
};

fn by_float(bytes: u64) -> String {
    const KB: u64 = 1024;
    const MB: u64 = KB * 1024;
    const GB: u64 = MB * 1024;
    if bytes >= GB {
        format!("{:.2} GB", bytes as f64 / GB as f64)
    } else if bytes >= MB {
        format!("{:.1} MB", bytes as f64 / MB as f64)
    } else if bytes >= KB {
        format!("{:.0} KB", bytes as f64 / KB as f64)
    } else {
        format!("{bytes} B")
    }
}

#[test]
fn sizes_are_rounded_as_floating_point_would() {
    let mut cases: Vec<u64> = (0..5000).collect();
    for shift in 10..64u32 {
        let base = 1u64 << shift;
        for delta in [0, 1, 2, 511, 512, 513, 1023, 1024, 1536, 2048, 2560] {
            cases.push(base.saturating_add(delta));
            cases.push(base - delta.min(base));
        }
    }
    let mut x: u64 = 0x9E37_79B9_7F4A_7C15;
    for i in 0..200_000u32 {
        x ^= x << 13;
        x ^= x >> 7;
        x ^= x << 17;
        cases.push(x >> (i % 64));
    }
    // Exact ties of the decimal that is shown.
    for k in 0..2000u64 {
        cases.push(1024 * k + 512);
        cases.push(1_048_576 * k / 20 * 20 + 524_288);
        cases.push(1_073_741_824 + k * 536_870_912);
        cases.push(1_073_741_824 + k * 134_217_728);
    }
    cases.extend([u64::MAX, u64::MAX - 1, (1 << 53) + 1, (1 << 54) + 2, (1 << 54) + 6]);
    for bytes in cases {
        assert_eq!(format_bytes(bytes), by_float(bytes), "{bytes}");
    }
}

#[test]
fn sizes_for_humans() {
    assert_eq!(format_bytes(0), "0 B");
    assert_eq!(format_bytes(1023), "1023 B");
    assert_eq!(format_bytes(1024), "1 KB");
    assert_eq!(format_bytes(1_048_575), "1024 KB");
    assert_eq!(format_bytes(1_572_864), "1.5 MB");
    assert_eq!(format_bytes(1_610_612_736), "1.50 GB");
    assert_eq!(format_bytes(u64::MAX), "17179869184.00 GB");
}

#[test]
fn durations_for_humans() {
    assert_eq!(format_duration(0), "0s");
    assert_eq!(format_duration(59), "59s");
    assert_eq!(format_duration(60), "1m 0s");
    assert_eq!(format_duration(3599), "59m 59s");
    assert_eq!(format_duration(3600), "1h 0m");
    assert_eq!(format_duration(90_061), "25h 1m");
}

#[test]
fn numbers() {
    for n in [0u128, 9, 10, 109, 12345, u64::MAX as u128, u128::MAX] {
        assert_eq!(format_decimal(n), n.to_string());
    }
    for n in [0u64, 0xab, 0x0123_4567_89ab_cdef, u64::MAX] {
        assert_eq!(format_hex(n), format!("{n:016x}"));
    }
}

#[test]
fn job_id_is_the_hash_of_both_paths() {
    let mut hasher = std::collections::hash_map::DefaultHasher::new();
    std::path::Path::new("/home/a").hash(&mut hasher);
    std::path::Path::new("/mnt/b").hash(&mut hasher);
    assert_eq!(generate_job_id("/home/a", "/mnt/b"), format!("{:016x}", hasher.finish()));
}

#[test]
fn case_is_ignored_for_ascii_only() {
    assert!(eq_ignore_ascii_case("C:", "c:"));
    assert!(!eq_ignore_ascii_case("É", "é"));
    assert!(!eq_ignore_ascii_case("ab", "abc"));
    assert!(!eq_ignore_ascii_case("ab", "ac"));
}

#[test]
fn paths_behave_like_those_of_std() {
    let style = PathStyle::Unix;
    let bases =
        ["", "/", "a", "/a", "a/", "/a/b", "/a/b/", "/a/b/.", "./a", "..", "/..", ".", "/a/..", "a\\b", "C:\\x"];
    let tails = ["", "x", "x/y", "/x", "./x", "C:\\x"];
    for base in bases {
        let path = std::path::Path::new(base);
        let name = path.file_name().map(|n| n.to_str().unwrap().to_string());
        assert_eq!(style.file_name(base), name, "file name of {base:?}");
        let dir = path.parent().map(|p| p.to_str().unwrap().to_string());
        assert_eq!(style.parent(base), dir, "parent of {base:?}");
        assert_eq!(style.depth(base), path.components().count(), "depth of {base:?}");
        for tail in tails {
            let joined = path.join(tail);
            assert_eq!(style.join(base, tail), joined.to_str().unwrap(), "{base:?} {tail:?}");
        }
    }
    let names =
        ["/d/.job.checkpoint", "/d/job", "a.b.c", "/x.y/z", ".hidden", "a.b/", "a.", "..", "/", ""];
    for path in names.into_iter().chain(bases) {
        for extension in ["tmp", "", "a.b"] {
            assert_eq!(
                style.with_extension(path, extension),
                std::path::Path::new(path).with_extension(extension).to_str().unwrap(),
                "{path:?} with {extension:?}"
            );
        }
    }
    for path in names.into_iter().chain(bases).chain(["//a", "/a//b/./", "a/./b", "./a/.", ".//a"]) {
        if let Some(name) = style.file_name(path) {
            let dir = std::path::Path::new(path).parent().unwrap();
            let partial = dir.join(format!("{name}.partial"));
            assert_eq!(style.partial_path(path), partial.to_str().unwrap());
            let joined = style.join(&style.parent(path).unwrap(), &name);
            assert_eq!(style.canonical_path(&joined), style.canonical_path(path));
        }
        let canonical = style.canonical_path(path);
        assert_eq!(std::path::Path::new(&canonical), std::path::Path::new(path));
        assert_eq!(style.canonical_path(&canonical), canonical);
        for other in bases {
            assert_eq!(
                canonical == style.canonical_path(other),
                std::path::Path::new(path) == std::path::Path::new(other),
                "{path:?} and {other:?}"
            );
        }
    }
}

#[test]
fn one_way_to_write_a_windows_path() {
    let style = PathStyle::Windows;
    let paths: [(&str, &str); 22] = [
        ("", ""),
        ("a/b\\\\c", "a\\b\\c"),
        ("./a/./b/", ".\\a\\b"),
        ("c:/x//y", "C:\\x\\y"),
        ("c:x", "C:x"),
        ("C:", "C:"),
        ("//server/share", "\\\\server\\share\\"),
        ("\\\\server\\share\\a/", "\\\\server\\share\\a"),
        ("\\\\server", "\\server"),
        ("//?/a/b", "//?/a\\b"),
        ("\\\\.\\COM1", "\\\\.\\COM1\\"),
        ("//./COM1/a", "\\\\.\\COM1\\a"),
        ("\\\\?\\c:\\a/b\\.", "\\\\?\\C:\\a/b\\."),
        ("\\\\?\\c:/a", "\\\\?\\C:\\a"),
        ("\\\\?\\c:", "\\\\?\\C:"),
        ("\\\\?\\c:x", "\\\\?\\c:x"),
        ("\\\\?\\UNC/s\\h\\\\a", "\\\\?\\UNC\\s\\h\\a"),
        ("\\\\?\\UNC\\s", "\\\\?\\UNC\\s"),
        ("\\\\?\\UNC\\s\\", "\\\\?\\UNC\\s\\\\"),
        ("\\\\?\\UNC\\s\\\\a", "\\\\?\\UNC\\s\\\\a"),
        ("\\\\?\\pic\\\\a", "\\\\?\\pic\\a"),
        ("/a", "\\a"),
    ];
    for (path, canonical) in paths {
        assert_eq!(style.canonical_path(path), canonical, "{path:?}");
        assert_eq!(style.canonical_path(canonical), canonical, "{canonical:?}");
    }
}

#[test]
fn verbatim_paths() {
    let style = PathStyle::Windows;
    // The path, its last name, the directory that holds it, and its steps.
    let paths: [(&str, Option<&str>, Option<&str>, usize); 12] = [
        ("\\\\?\\UNC\\server\\share", None, None, 1),
        ("\\\\?\\UNC\\server\\share\\", None, None, 2),
        ("\\\\?\\UNC\\server\\share\\a", Some("a"), Some("\\\\?\\UNC\\server\\share\\"), 3),
        ("\\\\?\\UNC\\server", None, None, 1),
        ("\\\\?\\C:", None, None, 1),
        ("\\\\?\\C:\\", None, None, 2),
        ("\\\\?\\C:\\a/b", Some("a/b"), Some("\\\\?\\C:\\"), 3),
        ("\\\\?\\C:\\a\\.", None, Some("\\\\?\\C:\\a"), 4),
        ("\\\\?\\C:\\a\\", Some("a"), Some("\\\\?\\C:\\"), 3),
        ("\\\\?\\pic\\a", Some("a"), Some("\\\\?\\pic\\"), 3),
        ("\\\\.\\COM1", None, None, 2),
        ("//?/C:/a", Some("a"), Some("//?/C:/"), 3),
    ];
    for (path, name, dir, steps) in paths {
        assert_eq!(style.file_name(path).as_deref(), name, "file name of {path:?}");
        assert_eq!(style.parent(path).as_deref(), dir, "parent of {path:?}");
        assert_eq!(style.depth(path), steps, "depth of {path:?}");
    }
    let joins: [(&str, &str, &str); 9] = [
        ("\\\\?\\C:\\x", "a/b", "\\\\?\\C:\\x\\a\\b"),
        ("\\\\?\\C:\\x", ".\\a\\..\\b", "\\\\?\\C:\\x\\b"),
        ("\\\\?\\C:\\x", "..\\..\\y", "\\\\?\\C:\\y"),
        ("\\\\?\\C:\\x", "\\y", "\\\\?\\C:\\y"),
        ("\\\\?\\C:", "y", "\\\\?\\C:\\y"),
        ("\\\\?\\C:", ".", "\\\\?\\C:"),
        ("\\\\?\\C:\\x\\", "", "\\\\?\\C:\\x\\"),
        ("\\\\?\\C:\\x", "D:\\y", "D:\\y"),
        ("\\\\?\\UNC\\s\\h", "y", "\\\\?\\UNC\\s\\h\\y"),
    ];
    for (base, tail, joined) in joins {
        assert_eq!(style.join(base, tail), joined, "{base:?} {tail:?}");
    }
    assert_eq!(style.partial_path("\\\\?\\C:\\a\\"), "\\\\?\\C:\\a.partial");
    assert_eq!(style.with_extension("\\\\?\\UNC\\s\\h.x", "tmp"), "\\\\?\\UNC\\s\\h.x");
    assert_eq!(style.with_extension("D:\\b.c\\", "tmp"), "D:\\b.tmp");
}

#[test]
fn windows_paths() {
    let style = PathStyle::Windows;
    // The path, its last name, the directory that holds it, and its steps.
    let paths: [(&str, Option<&str>, Option<&str>, usize); 15] = [
        ("C:\\s\\a", Some("a"), Some("C:\\s"), 4),
        ("C:\\s\\a\\", Some("a"), Some("C:\\s"), 4),
        ("C:/s/a", Some("a"), Some("C:/s"), 4),
        ("C:\\a", Some("a"), Some("C:\\"), 3),
        ("C:\\", None, None, 2),
        ("C:", None, None, 1),
        ("C:a", Some("a"), Some("C:"), 2),
        ("\\\\server\\share", None, None, 2),
        ("\\\\server\\share\\", None, None, 2),
        ("\\\\server\\share\\a", Some("a"), Some("\\\\server\\share\\"), 3),
        ("\\\\server\\share\\a\\b", Some("b"), Some("\\\\server\\share\\a"), 4),
        ("\\a", Some("a"), Some("\\"), 2),
        ("s\\a", Some("a"), Some("s"), 2),
        ("D/s\\a", Some("a"), Some("D/s"), 3),
        ("a", Some("a"), Some(""), 1),
    ];
    for (path, name, dir, steps) in paths {
        assert_eq!(style.file_name(path).as_deref(), name, "file name of {path:?}");
        assert_eq!(style.parent(path).as_deref(), dir, "parent of {path:?}");
        assert_eq!(style.depth(path), steps, "depth of {path:?}");
    }
    let joins: [(&str, &str, &str); 9] = [
        ("D:\\Backup", "sub\\a.txt", "D:\\Backup\\sub\\a.txt"),
        ("D:\\", "a.txt", "D:\\a.txt"),
        ("D:", "a.txt", "D:a.txt"),
        ("D:/x/", "a.txt", "D:/x/a.txt"),
        ("\\\\server\\share", "a.txt", "\\\\server\\share\\a.txt"),
        ("D:\\x", "\\a.txt", "D:\\a.txt"),
        ("D:\\x", "E:\\a.txt", "E:\\a.txt"),
        ("", "a.txt", "a.txt"),
        ("\\\\server\\share\\x", "/a", "\\\\server\\share/a"),
    ];
    for (base, tail, joined) in joins {
        assert_eq!(style.join(base, tail), joined, "{base:?} {tail:?}");
    }
    assert_eq!(style.partial_path("D:\\b\\a.txt"), "D:\\b\\a.txt.partial");
    assert_eq!(style.partial_path("D:/b//a.txt/"), "D:/b\\a.txt.partial");
    assert_eq!(
        style.with_extension("D:\\b.c\\.filecopier_j.checkpoint", "tmp"),
        "D:\\b.c\\.filecopier_j.tmp"
    );
    assert_eq!(style.with_extension("D:\\b.c\\job", "tmp"), "D:\\b.c\\job.tmp");
}

#[test]
fn partial_names() {
    let style = PathStyle::Unix;
    assert_eq!(style.partial_path("/d/a.txt"), "/d/a.txt.partial");
    assert_eq!(style.partial_path("Makefile"), "Makefile.partial");
    assert_eq!(style.partial_path("/d/new/"), "/d/new.partial");
    assert!(is_partial_name("a.txt.partial"));
    assert!(is_partial_name(".partial"));
    assert!(!is_partial_name("a.partial.txt"));
    assert!(!is_partial_name("partial"));
}

#[test]
fn a_child_lies_one_step_deeper() {
    let style = PathStyle::Unix;
    for dir in ["/", "/a", "/a/b/", "a", "./a"] {
        assert_eq!(style.depth(&style.join(dir, "child")), style.depth(dir) + 1);
    }
    let style = PathStyle::Windows;
    for dir in ["C:", "C:\\", "C:\\a", "\\\\s\\h", "\\\\s\\h\\a", "\\", "a\\b/", "./a"] {
        assert_eq!(style.depth(&style.join(dir, "child")), style.depth(dir) + 1);
    }
    for dir in ["\\\\?\\C:\\", "\\\\?\\C:\\a", "\\\\?\\UNC\\s\\h\\", "\\\\.\\x", "\\\\"] {
        assert_eq!(style.depth(&style.join(dir, "child")), style.depth(dir) + 1);
    }
    assert_eq!(style.depth("\\\\?\\C:\\child"), style.depth("\\\\?\\C:") + 2);
}

#[test]
fn error_messages() {
    let p = || "/p".to_string();
    let s = || "why".to_string();
    let cases = [
        (CoreError::io(p(), s()), "Error de I/O en '/p': why"),
        (CoreError::read(p(), s()), "No se puede leer el origen '/p': why"),
        (CoreError::write(p(), s()), "No se puede escribir en destino '/p': why"),
        (
            CoreError::rename(p(), "/q".to_string(), s()),
            "Rename atómico fallido de '/p' a '/q': why",
        ),
        (
            CoreError::HashMismatch { path: p(), expected: "aa".to_string(), actual: "bb".to_string() },
            "Verificación fallida para '/p': esperado=aa, obtenido=bb",
        ),
        (
            CoreError::CheckpointLoad { path: p(), source: s() },
            "Checkpoint corrupto o inaccesible en '/p': why",
        ),
        (
            CoreError::CheckpointSave { path: p(), source: s() },
            "No se pudo guardar checkpoint en '/p': why",
        ),
        (
            CoreError::PipelineDisconnected,
            "Pipeline interrumpido: el canal fue cerrado prematuramente",
        ),
        (CoreError::Paused, "Operación pausada por el usuario"),
        (CoreError::SwarmTimeout, "Timeout esperando slot en el motor de enjambre"),
        (CoreError::InvalidConfig { message: s() }, "Configuración inválida: why"),
        (
            CoreError::UnsupportedPlatform { operation: "vss" },
            "Operación no soportada en esta plataforma: vss",
        ),
    ];
    for (error, text) in cases {
        assert_eq!(error.to_string(), text);
        let retry = matches!(error, CoreError::Paused | CoreError::SwarmTimeout);
        assert_eq!(error.is_recoverable(), retry);
    }
}

#[test]
fn counters_of_a_job() {
    let mut sink = TelemetrySink::new(100, 3);
    sink.add_bytes(30);
    sink.add_bytes(20);
    sink.complete_file();
    sink.fail_file();
    let counts = sink.snapshot();
    assert_eq!(counts.total_bytes, 100);
    assert_eq!(counts.total_files, 3);
    assert_eq!(counts.copied_bytes, 50);
    assert_eq!(counts.completed_files, 1);
    assert_eq!(counts.failed_files, 1);
    assert_eq!(counts.delta_bytes, 50);
    assert_eq!(counts.remaining_bytes, Some(50));
    sink.add_bytes(60);
    let counts = sink.snapshot();
    assert_eq!(counts.delta_bytes, 60);
    assert_eq!(counts.remaining_bytes, None);
    assert_eq!(sink.snapshot().delta_bytes, 0);
    sink.add_bytes(u64::MAX);
    assert_eq!(sink.snapshot().copied_bytes, 109);
}

#[test]
fn the_current_file() {
    let mut sink = TelemetrySink::new(1, 1);
    assert!(sink.current().is_none());
    sink.set_current_file("/a".to_string(), 3, 9);
    let current = sink.current().unwrap();
    assert_eq!((current.path.as_str(), current.done_bytes, current.total_bytes), ("/a", 3, 9));
    sink.clear_current_file();
    assert!(sink.current().is_none());
}

#[test]
fn operations_that_do_nothing_succeed() {
    assert!(NoOpOsOps.preallocate("/nowhere", 1).is_ok());
    assert!(NoOpOsOps.copy_metadata("/nowhere", "/elsewhere").is_ok());
}
