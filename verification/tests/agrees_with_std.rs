use cargo_mre::project::{library_name, manifest_imsi_of, named_manifest, package_name_of};
use cargo_mre::recipe::is_static_library;
use std::path::Path;

/// All strings up to length `n` over a small alphabet that exercises the
/// scanning rules.
fn samples(n: usize) -> Vec<String> {
    let alphabet = ['a', '"', '\n', '\r', ' ', '.', '-', '\u{3000}'];
    let mut out = vec![String::new()];
    let mut layer = vec![String::new()];
    for _ in 0..n {
        let mut next = Vec::new();
        for s in &layer {
            for c in alphabet {
                let mut t = s.clone();
                t.push(c);
                next.push(t);
            }
        }
        out.extend(next.iter().cloned());
        layer = next;
    }
    out
}

#[test]
fn package_name_agrees_with_std() {
    for body in samples(4) {
        for s in [format!("name = {}", body), format!("x\nname = {}", body), body.clone()] {
            let expected = s
                .lines()
                .find(|l| l.starts_with("name = "))
                .and_then(|l| l.split('"').nth(1))
                .map(|x| x.to_string());
            assert_eq!(package_name_of(&s), expected, "{:?}", s);
        }
    }
}

#[test]
fn manifest_imsi_agrees_with_std() {
    for body in samples(4) {
        for s in [format!("\"imsi\"{}", body), format!("{}\"imsi\": \"{}", body, body)] {
            let expected = s
                .lines()
                .find(|l| l.contains("\"imsi\""))
                .and_then(|l| l.split('"').nth(3))
                .map(|x| x.to_string())
                .unwrap_or_else(|| "000000000000000".to_string());
            let expected = expected.trim().trim().to_string();
            assert_eq!(manifest_imsi_of(&s), expected, "{:?}", s);
        }
    }
}

#[test]
fn replace_agrees_with_std() {
    for s in samples(4) {
        assert_eq!(library_name(&s), s.replace('-', "_"));
        let t = format!("{}name = \"my_mre_app\"{}", s, s);
        assert_eq!(
            named_manifest(&t, "p-q"),
            t.replace("name = \"my_mre_app\"", "name = \"p-q\"")
        );
    }
}

#[test]
fn static_library_agrees_with_path_extension() {
    for s in samples(4) {
        if s.contains('\n') || s.contains('\r') || s.contains('"') {
            continue;
        }
        for name in [s.clone(), format!("{}a", s), format!("lib{}.a", s)] {
            let expected = !name.is_empty()
                && Path::new(&name).file_name().map(|f| f == name.as_str()).unwrap_or(false)
                && Path::new(&name).extension().map(|e| e == "a").unwrap_or(false);
            if Path::new(&name).file_name().map(|f| f == name.as_str()).unwrap_or(false) {
                assert_eq!(is_static_library(&name), expected, "{:?}", name);
            }
        }
    }
}
